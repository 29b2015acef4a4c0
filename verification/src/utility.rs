//! Textual addresses, read and written, and the EtherType lookup.

use crate::error::{ErrorType, PaError};
use crate::proto::EthType;
use vstd::prelude::*;
use vstd::string::*;

verus! {

/// The pieces of `text` between occurrences of `sep`. There is always at
/// least one piece; a piece may be empty.
pub open spec fn split(text: Seq<char>, sep: char) -> Seq<Seq<char>>
    decreases text.len(),
{
    if text.len() == 0 {
        seq![Seq::empty()]
    } else {
        let before = split(text.drop_last(), sep);
        if text.last() == sep {
            before.push(Seq::empty())
        } else {
            before.drop_last().push(before.last().push(text.last()))
        }
    }
}

/// The value of a decimal digit, if `c` is one.
pub open spec fn dec_digit(c: char) -> Option<nat> {
    if '0' <= c <= '9' {
        Some((c as int - '0' as int) as nat)
    } else {
        None
    }
}

/// The value of a hexadecimal digit of either case, if `c` is one.
pub open spec fn hex_digit(c: char) -> Option<nat> {
    if '0' <= c <= '9' {
        Some((c as int - '0' as int) as nat)
    } else if 'a' <= c <= 'f' {
        Some((c as int - 'a' as int + 10) as nat)
    } else if 'A' <= c <= 'F' {
        Some((c as int - 'A' as int + 10) as nat)
    } else {
        None
    }
}

/// The number that a string of decimal digits spells.
pub open spec fn dec_value(digits: Seq<char>) -> nat
    decreases digits.len(),
{
    if digits.len() == 0 {
        0
    } else {
        10 * dec_value(digits.drop_last()) + dec_digit(digits.last()).unwrap_or(0)
    }
}

/// A decimal octet: one to three decimal digits that spell at most 255.
pub open spec fn dec_octet(group: Seq<char>) -> Option<u8> {
    if 1 <= group.len() <= 3 && (forall|i: int| 0 <= i < group.len() ==> dec_digit(group[i]) is Some)
        && dec_value(group) <= 255 {
        Some(dec_value(group) as u8)
    } else {
        None
    }
}

/// A hexadecimal octet: exactly two hexadecimal digits.
pub open spec fn hex_octet(group: Seq<char>) -> Option<u8> {
    if group.len() == 2 && hex_digit(group[0]) is Some && hex_digit(group[1]) is Some {
        Some((16 * hex_digit(group[0]).unwrap() + hex_digit(group[1]).unwrap()) as u8)
    } else {
        None
    }
}

/// The value of a decimal digit.
fn dec_digit_of(c: char) -> (r: Option<u8>)
    ensures
        r is Some <==> dec_digit(c) is Some,
        r matches Some(d) ==> d == dec_digit(c).unwrap() && d < 10,
{
    if '0' <= c && c <= '9' {
        Some(((c as u32) - ('0' as u32)) as u8)
    } else {
        None
    }
}

/// The value of a hexadecimal digit.
fn hex_digit_of(c: char) -> (r: Option<u8>)
    ensures
        r is Some <==> hex_digit(c) is Some,
        r matches Some(d) ==> d == hex_digit(c).unwrap() && d < 16,
{
    if '0' <= c && c <= '9' {
        Some(((c as u32) - ('0' as u32)) as u8)
    } else if 'a' <= c && c <= 'f' {
        Some(((c as u32) - ('a' as u32) + 10) as u8)
    } else if 'A' <= c && c <= 'F' {
        Some(((c as u32) - ('A' as u32) + 10) as u8)
    } else {
        None
    }
}

/// The views of the pieces held in `groups`.
pub open spec fn group_views(groups: Seq<Vec<char>>) -> Seq<Seq<char>> {
    Seq::new(groups.len(), |i: int| groups[i]@)
}

/// The pieces of `text` between occurrences of `sep`.
pub fn split_text(text: &str, sep: char) -> (groups: Vec<Vec<char>>)
    ensures
        group_views(groups@) == split(text@, sep),
{
    let mut groups: Vec<Vec<char>> = Vec::new();
    let mut cur: Vec<char> = Vec::new();
    let ghost mut seen: Seq<char> = Seq::empty();
    assert(group_views(groups@).push(cur@) =~= split(seen, sep));
    for c in it: text.chars()
        invariant
            it.seq() == text@,
            seen == text@.subrange(0, it.index() as int),
            group_views(groups@).push(cur@) == split(seen, sep),
    {
        let ghost before = group_views(groups@);
        let ghost held = cur@;
        proof {
            seen = text@.subrange(0, it.index() + 1);
            assert(seen.drop_last() =~= text@.subrange(0, it.index() as int));
        }
        if c == sep {
            groups.push(cur);
            cur = Vec::new();
            assert(group_views(groups@) =~= before.push(held));
        } else {
            cur.push(c);
            assert(before.push(held).drop_last() =~= before);
        }
    }
    proof {
        assert(seen =~= text@);
    }
    let ghost before = group_views(groups@);
    groups.push(cur);
    assert(group_views(groups@) =~= before.push(cur@));
    groups
}

/// The octet that a group of decimal digits spells.
pub fn dec_octet_of(group: &Vec<char>) -> (r: Option<u8>)
    ensures
        r == dec_octet(group@),
{
    if group.len() < 1 || group.len() > 3 {
        return None;
    }
    let mut value: u32 = 0;
    let mut i: usize = 0;
    while i < group.len()
        invariant
            i <= group@.len() <= 3,
            value == dec_value(group@.subrange(0, i as int)),
            value < 1000,
            i < 3 ==> value < 100,
            i < 2 ==> value < 10,
            i < 1 ==> value == 0,
            forall|j: int| 0 <= j < i ==> dec_digit(group@[j]) is Some,
        decreases group@.len() - i,
    {
        match dec_digit_of(group[i]) {
            None => {
                return None;
            },
            Some(d) => {
                assert(group@.subrange(0, i + 1).drop_last() =~= group@.subrange(0, i as int));
                value = 10 * value + d as u32;
            },
        }
        i += 1;
    }
    assert(group@.subrange(0, i as int) =~= group@);
    if value > 255 {
        None
    } else {
        Some(value as u8)
    }
}

/// The octet that a group of two hexadecimal digits spells.
pub fn hex_octet_of(group: &Vec<char>) -> (r: Option<u8>)
    ensures
        r == hex_octet(group@),
{
    if group.len() != 2 {
        return None;
    }
    match (hex_digit_of(group[0]), hex_digit_of(group[1])) {
        (Some(hi), Some(lo)) => Some(16 * hi + lo),
        _ => None,
    }
}

/// What a dotted IPv4 address spells: four decimal octets with a `'.'`
/// between them, or `None` for any other text.
pub open spec fn ip_of_text(text: Seq<char>) -> Option<Seq<u8>> {
    let groups = split(text, '.');
    if groups.len() == 4 && (forall|i: int| 0 <= i < 4 ==> dec_octet(#[trigger] groups[i]) is Some) {
        Some(Seq::new(4, |i: int| dec_octet(groups[i]).unwrap()))
    } else {
        None
    }
}

/// What a MAC address spells: six two-digit hexadecimal octets with a `':'`
/// between them, or `None` for any other text.
pub open spec fn mac_of_text(text: Seq<char>) -> Option<Seq<u8>> {
    let groups = split(text, ':');
    if groups.len() == 6 && (forall|i: int| 0 <= i < 6 ==> hex_octet(#[trigger] groups[i]) is Some) {
        Some(Seq::new(6, |i: int| hex_octet(groups[i]).unwrap()))
    } else {
        None
    }
}

/// Reads an IPv4 address written as four decimal octets with dots between
/// them. Any other text is a `ParseError`.
pub fn parse_ip(ip_addr: &str) -> (r: Result<[u8; 4], PaError>)
    ensures
        r is Ok <==> ip_of_text(ip_addr@) is Some,
        r matches Ok(octets) ==> octets@ == ip_of_text(ip_addr@).unwrap(),
        r matches Err(e) ==> e.err_type == ErrorType::ParseError,
{
    let groups = split_text(ip_addr, '.');
    let ghost pieces = split(ip_addr@, '.');
    if groups.len() != 4 {
        return Err(PaError::new("an IPv4 address has four octets", ErrorType::ParseError));
    }
    let mut octets: [u8; 4] = [0;4];
    let mut i: usize = 0;
    while i < 4
        invariant
            i <= 4,
            groups@.len() == 4,
            pieces == split(ip_addr@, '.'),
            group_views(groups@) == pieces,
            forall|j: int| 0 <= j < i ==> dec_octet(#[trigger] pieces[j]) == Some(octets@[j]),
        decreases 4 - i,
    {
        assert(group_views(groups@)[i as int] == groups@[i as int]@);
        match dec_octet_of(&groups[i]) {
            None => {
                return Err(PaError::new("not a decimal octet", ErrorType::ParseError));
            },
            Some(octet) => {
                octets[i] = octet;
            },
        }
        i += 1;
    }
    assert(octets@ =~= ip_of_text(ip_addr@).unwrap());
    Ok(octets)
}

/// Reads a MAC address written as six two-digit hexadecimal octets with
/// colons between them. Any other text is a `ParseError`.
pub fn parse_mac(mac_addr: &str) -> (r: Result<[u8; 6], PaError>)
    ensures
        r is Ok <==> mac_of_text(mac_addr@) is Some,
        r matches Ok(octets) ==> octets@ == mac_of_text(mac_addr@).unwrap(),
        r matches Err(e) ==> e.err_type == ErrorType::ParseError,
{
    let groups = split_text(mac_addr, ':');
    let ghost pieces = split(mac_addr@, ':');
    if groups.len() != 6 {
        return Err(PaError::new("a MAC address has six octets", ErrorType::ParseError));
    }
    let mut octets: [u8; 6] = [0;6];
    let mut i: usize = 0;
    while i < 6
        invariant
            i <= 6,
            groups@.len() == 6,
            pieces == split(mac_addr@, ':'),
            group_views(groups@) == pieces,
            forall|j: int| 0 <= j < i ==> hex_octet(#[trigger] pieces[j]) == Some(octets@[j]),
        decreases 6 - i,
    {
        assert(group_views(groups@)[i as int] == groups@[i as int]@);
        match hex_octet_of(&groups[i]) {
            None => {
                return Err(PaError::new("not a hexadecimal octet", ErrorType::ParseError));
            },
            Some(octet) => {
                octets[i] = octet;
            },
        }
        i += 1;
    }
    assert(octets@ =~= mac_of_text(mac_addr@).unwrap());
    Ok(octets)
}

/// The number of `':'`-separated pieces of `text`.
pub fn count_groups(text: &str, sep: char) -> (n: usize)
    ensures
        n == split(text@, sep).len(),
{
    let groups = split_text(text, sep);
    groups.len()
}

/// The character for a digit below sixteen: `'0'` to `'9'`, then `'a'` to
/// `'f'`.
pub open spec fn digit_char(d: nat) -> char {
    if d < 10 {
        ('0' as int + d) as char
    } else {
        ('a' as int + d - 10) as char
    }
}

/// The shortest decimal numeral for `n`.
pub open spec fn dec_text(n: nat) -> Seq<char>
    decreases n,
{
    if n < 10 {
        seq![digit_char(n)]
    } else {
        dec_text(n / 10).push(digit_char(n % 10))
    }
}

/// The two-digit lower-case hexadecimal numeral for a byte.
pub open spec fn hex_text(b: u8) -> Seq<char> {
    seq![digit_char((b / 16) as nat), digit_char((b % 16) as nat)]
}

/// A dotted IPv4 address: the first four bytes in decimal, dots between.
pub open spec fn ip_text(ip: Seq<u8>) -> Seq<char> {
    dec_text(ip[0] as nat) + seq!['.'] + dec_text(ip[1] as nat) + seq!['.'] + dec_text(
        ip[2] as nat,
    ) + seq!['.'] + dec_text(ip[3] as nat)
}

/// A MAC address: every byte as two hexadecimal digits, colons between.
pub open spec fn mac_text(mac: Seq<u8>) -> Seq<char>
    decreases mac.len(),
{
    if mac.len() == 0 {
        Seq::empty()
    } else if mac.len() == 1 {
        hex_text(mac[0])
    } else {
        mac_text(mac.drop_last()) + seq![':'] + hex_text(mac.last())
    }
}

/// A text without the separator is its own single piece.
pub proof fn lemma_split_one(text: Seq<char>, sep: char)
    requires
        forall|i: int| 0 <= i < text.len() ==> text[i] != sep,
    ensures
        split(text, sep) == seq![text],
    decreases text.len(),
{
    if text.len() > 0 {
        lemma_split_one(text.drop_last(), sep);
        assert(text.drop_last().push(text.last()) =~= text);
        assert(seq![text.drop_last()].drop_last().push(text) =~= seq![text]);
    } else {
        assert(text =~= Seq::<char>::empty());
    }
}

/// A text has at least one piece.
pub proof fn lemma_split_some(text: Seq<char>, sep: char)
    ensures
        split(text, sep).len() >= 1,
    decreases text.len(),
{
    if text.len() > 0 {
        lemma_split_some(text.drop_last(), sep);
    }
}

/// The pieces of two texts joined by a separator are the pieces of the
/// one followed by the pieces of the other.
pub proof fn lemma_split_join(a: Seq<char>, b: Seq<char>, sep: char)
    ensures
        split(a + seq![sep] + b, sep) == split(a, sep) + split(b, sep),
    decreases b.len(),
{
    let whole = a + seq![sep] + b;
    if b.len() == 0 {
        assert(whole.drop_last() =~= a);
        assert(split(a, sep).push(Seq::empty()) =~= split(a, sep) + split(b, sep));
    } else {
        let front = a + seq![sep] + b.drop_last();
        assert(whole.drop_last() =~= front);
        lemma_split_join(a, b.drop_last(), sep);
        lemma_split_some(b.drop_last(), sep);
        let left = split(a, sep);
        let right = split(b.drop_last(), sep);
        if b.last() == sep {
            assert((left + right).push(Seq::empty()) =~= left + right.push(Seq::empty()));
        } else {
            assert((left + right).drop_last().push((left + right).last().push(b.last()))
                =~= left + right.drop_last().push(right.last().push(b.last())));
        }
    }
}

/// The character of a digit is read back as that digit, and is neither a
/// dot nor a colon.
pub proof fn lemma_digit_char(d: nat)
    requires
        d < 16,
    ensures
        hex_digit(digit_char(d)) == Some(d),
        d < 10 ==> dec_digit(digit_char(d)) == Some(d),
        digit_char(d) != '.',
        digit_char(d) != ':',
{
}

/// The decimal numeral of a byte is read back as that byte, and holds no
/// dot.
pub proof fn lemma_dec_text(b: u8)
    ensures
        dec_octet(dec_text(b as nat)) == Some(b),
        forall|i: int| 0 <= i < dec_text(b as nat).len() ==> dec_text(b as nat)[i] != '.',
{
    let n = b as nat;
    let text = dec_text(n);
    lemma_digit_char(n % 10);
    lemma_digit_char((n / 10) % 10);
    lemma_digit_char(n / 100);
    reveal_with_fuel(dec_text, 3);
    reveal_with_fuel(dec_value, 4);
    if n < 10 {
        assert(text =~= seq![digit_char(n)]);
        assert(text.drop_last() =~= Seq::<char>::empty());
        assert(dec_value(text) == n);
    } else if n < 100 {
        assert(text =~= seq![digit_char(n / 10), digit_char(n % 10)]);
        assert(text.drop_last() =~= seq![digit_char(n / 10)]);
        assert(text.drop_last().drop_last() =~= Seq::<char>::empty());
        assert(dec_value(text.drop_last()) == n / 10);
        assert(dec_value(text) == n);
    } else {
        assert(text =~= seq![digit_char(n / 100), digit_char((n / 10) % 10), digit_char(n % 10)]);
        assert(text.drop_last() =~= seq![digit_char(n / 100), digit_char((n / 10) % 10)]);
        assert(text.drop_last().drop_last() =~= seq![digit_char(n / 100)]);
        assert(text.drop_last().drop_last().drop_last() =~= Seq::<char>::empty());
        assert(dec_value(text.drop_last().drop_last()) == n / 100);
        assert(dec_value(text.drop_last()) == n / 10);
        assert(dec_value(text) == n);
    }
}

/// The hexadecimal numeral of a byte is read back as that byte, and holds
/// no colon.
pub proof fn lemma_hex_text(b: u8)
    ensures
        hex_octet(hex_text(b)) == Some(b),
        forall|i: int| 0 <= i < hex_text(b).len() ==> hex_text(b)[i] != ':',
{
    lemma_digit_char((b / 16) as nat);
    lemma_digit_char((b % 16) as nat);
}

/// An IPv4 address written as text and read again is the same address.
pub proof fn lemma_ip_text_roundtrip(ip: Seq<u8>)
    requires
        ip.len() >= 4,
    ensures
        ip_of_text(ip_text(ip)) == Some(ip.subrange(0, 4)),
{
    let a = dec_text(ip[0] as nat);
    let b = dec_text(ip[1] as nat);
    let c = dec_text(ip[2] as nat);
    let d = dec_text(ip[3] as nat);
    lemma_dec_text(ip[0]);
    lemma_dec_text(ip[1]);
    lemma_dec_text(ip[2]);
    lemma_dec_text(ip[3]);
    lemma_split_one(a, '.');
    lemma_split_one(b, '.');
    lemma_split_one(c, '.');
    lemma_split_one(d, '.');
    lemma_split_join(a, b, '.');
    lemma_split_join(a + seq!['.'] + b, c, '.');
    lemma_split_join(a + seq!['.'] + b + seq!['.'] + c, d, '.');
    let groups = split(ip_text(ip), '.');
    assert(groups =~= seq![a, b, c, d]);
    assert(ip_of_text(ip_text(ip)).unwrap() =~= ip.subrange(0, 4));
}

/// A hardware address written as text and read again is the same
/// address.
pub proof fn lemma_mac_text_roundtrip(mac: Seq<u8>)
    requires
        mac.len() == 6,
    ensures
        mac_of_text(mac_text(mac)) == Some(mac),
{
    lemma_mac_pieces(mac);
    let groups = split(mac_text(mac), ':');
    assert forall|i: int| 0 <= i < 6 implies hex_octet(#[trigger] groups[i]) == Some(mac[i]) by {
        lemma_hex_text(mac[i]);
    }
    assert(mac_of_text(mac_text(mac)).unwrap() =~= mac);
}

/// The pieces of a written hardware address are the numerals of its
/// bytes.
pub proof fn lemma_mac_pieces(mac: Seq<u8>)
    requires
        mac.len() >= 1,
    ensures
        split(mac_text(mac), ':') == Seq::new(mac.len(), |i: int| hex_text(mac[i])),
    decreases mac.len(),
{
    let pieces = Seq::new(mac.len(), |i: int| hex_text(mac[i]));
    lemma_hex_text(mac.last());
    lemma_split_one(hex_text(mac.last()), ':');
    if mac.len() == 1 {
        assert(split(mac_text(mac), ':') =~= pieces);
    } else {
        let front = mac.drop_last();
        lemma_mac_pieces(front);
        lemma_split_join(mac_text(front), hex_text(mac.last()), ':');
        assert(split(mac_text(front), ':') + seq![hex_text(mac.last())] =~= pieces);
    }
}

/// The one-character string for a digit below sixteen.
fn digit_str(d: u8) -> (s: &'static str)
    requires
        d < 16,
    ensures
        s@ == seq![digit_char(d as nat)],
{
    proof {
        reveal_strlit("0");
        reveal_strlit("1");
        reveal_strlit("2");
        reveal_strlit("3");
        reveal_strlit("4");
        reveal_strlit("5");
        reveal_strlit("6");
        reveal_strlit("7");
        reveal_strlit("8");
        reveal_strlit("9");
        reveal_strlit("a");
        reveal_strlit("b");
        reveal_strlit("c");
        reveal_strlit("d");
        reveal_strlit("e");
        reveal_strlit("f");
    }
    let s = match d {
        0 => "0",
        1 => "1",
        2 => "2",
        3 => "3",
        4 => "4",
        5 => "5",
        6 => "6",
        7 => "7",
        8 => "8",
        9 => "9",
        10 => "a",
        11 => "b",
        12 => "c",
        13 => "d",
        14 => "e",
        _ => "f",
    };
    assert(s@ =~= seq![digit_char(d as nat)]);
    s
}

/// Appends the shortest decimal numeral for `b`.
fn append_dec(s: &mut String, b: u8)
    ensures
        final(s)@ == old(s)@ + dec_text(b as nat),
{
    assert(dec_text((b / 10) as nat) == if b < 100 {
        seq![digit_char((b / 10) as nat)]
    } else {
        seq![digit_char((b / 100) as nat), digit_char(((b / 10) % 10) as nat)]
    }) by {
        if b >= 100 {
            assert(dec_text((b / 100) as nat) == seq![digit_char((b / 100) as nat)]);
            assert(((b / 10) / 10) == b / 100);
        }
    }
    if b >= 100 {
        s.append(digit_str(b / 100));
    }
    if b >= 10 {
        s.append(digit_str((b / 10) % 10));
    }
    s.append(digit_str(b % 10));
    assert(s@ =~= old(s)@ + dec_text(b as nat));
}

/// Writes an IPv4 address with dots: `[192, 168, 1, 1]` is `192.168.1.1`.
/// Bytes after the fourth are not looked at.
pub fn ip_to_string(ip_addr: &[u8]) -> (s: String)
    requires
        ip_addr@.len() >= 4,
    ensures
        s@ == ip_text(ip_addr@),
{
    proof {
        reveal_strlit(".");
    }
    let mut s = String::new();
    append_dec(&mut s, ip_addr[0]);
    s.append(".");
    append_dec(&mut s, ip_addr[1]);
    s.append(".");
    append_dec(&mut s, ip_addr[2]);
    s.append(".");
    append_dec(&mut s, ip_addr[3]);
    assert(s@ =~= ip_text(ip_addr@));
    s
}

/// Writes a MAC address with colons: six bytes of `0xaa` are
/// `aa:aa:aa:aa:aa:aa`. Any number of bytes is written the same way.
pub fn mac_to_string(mac_addr: &[u8]) -> (s: String)
    ensures
        s@ == mac_text(mac_addr@),
{
    proof {
        reveal_strlit(":");
    }
    let mut s = String::new();
    let mut i: usize = 0;
    assert(mac_addr@.subrange(0, 0) =~= Seq::<u8>::empty());
    while i < mac_addr.len()
        invariant
            i <= mac_addr@.len(),
            s@ == mac_text(mac_addr@.subrange(0, i as int)),
            ":"@ == seq![':'],
        decreases mac_addr@.len() - i,
    {
        let ghost before = s@;
        if i > 0 {
            s.append(":");
        }
        let b = mac_addr[i];
        s.append(digit_str(b / 16));
        s.append(digit_str(b % 16));
        proof {
            let upto = mac_addr@.subrange(0, i + 1);
            assert(upto.drop_last() =~= mac_addr@.subrange(0, i as int));
            assert(upto.last() == b);
            if i == 0 {
                assert(s@ =~= hex_text(b));
            } else {
                assert(s@ =~= before + seq![':'] + hex_text(b));
            }
        }
        i += 1;
    }
    assert(mac_addr@.subrange(0, i as int) =~= mac_addr@);
    s
}

/// Whether two byte strings are the same.
pub fn same_bytes(a: &[u8], b: &[u8]) -> (r: bool)
    ensures
        r == (a@ == b@),
{
    if a.len() != b.len() {
        return false;
    }
    let mut i: usize = 0;
    while i < a.len()
        invariant
            i <= a@.len(),
            a@.len() == b@.len(),
            forall|j: int| 0 <= j < i ==> a@[j] == b@[j],
        decreases a@.len() - i,
    {
        if a[i] != b[i] {
            return false;
        }
        i += 1;
    }
    assert(a@ =~= b@);
    true
}

/// The protocol that an EtherType names: `0x0806` is ARP, `0x0800` is IPv4,
/// anything else is unknown.
pub fn from_ethtype(ethtype: u16) -> (t: EthType)
    ensures
        t == ethtype_of(ethtype),
{
    if ethtype == 0x0806 {
        EthType::Arp
    } else if ethtype == 0x0800 {
        EthType::IPv4
    } else {
        EthType::Unknown
    }
}

/// The protocol that an EtherType names.
pub open spec fn ethtype_of(ethtype: u16) -> EthType {
    if ethtype == 0x0806 {
        EthType::Arp
    } else if ethtype == 0x0800 {
        EthType::IPv4
    } else {
        EthType::Unknown
    }
}

} // verus!
