//! The vendor prefix table: parsing the database text and looking up the
//! vendor of a hardware address.
use vstd::prelude::*;
use crate::addr::MacAddr;

verus! {

/// One line of the vendor prefix database.
#[derive(Debug)]
pub struct NmapMacPrefix {
    /// Six uppercase hexadecimal digits, where the entry came from
    /// `get_nmap_mac_prefixes`.
    pub prefix: String,
    /// The vendor's name.
    pub ouis: String,
}

/// The character of a hexadecimal digit, uppercase.
pub open spec fn hex_upper(d: int) -> char {
    if d < 10 {
        (('0' as int) + d) as char
    } else {
        (('A' as int) + d - 10) as char
    }
}

/// Whether a character is a decimal digit or one of `A` to `F`.
pub open spec fn is_upper_hex(c: char) -> bool {
    ('0' <= c && c <= '9') || ('A' <= c && c <= 'F')
}

/// Two uppercase hexadecimal digits for a byte.
pub open spec fn byte_hex(b: u8) -> Seq<char> {
    seq![hex_upper(b as int / 16), hex_upper(b as int % 16)]
}

/// The lookup key of a hardware address: its first three bytes as six
/// uppercase hexadecimal digits, without separators.
pub open spec fn oui_key(m: MacAddr) -> Seq<char> {
    byte_hex(m.0) + byte_hex(m.1) + byte_hex(m.2)
}

/// The one-character string of a hexadecimal digit.
fn hex_digit(d: u8) -> (r: &'static str)
    requires
        d < 16,
    ensures
        r@ == seq![hex_upper(d as int)],
{
    proof {
        reveal_strlit("0");
        reveal_strlit("1");
        reveal_strlit("2");
        reveal_strlit("3");
        reveal_strlit("4");
        reveal_strlit("5");
        reveal_strlit("6");
        reveal_strlit("7");
        reveal_strlit("8");
        reveal_strlit("9");
        reveal_strlit("A");
        reveal_strlit("B");
        reveal_strlit("C");
        reveal_strlit("D");
        reveal_strlit("E");
        reveal_strlit("F");
    }
    let r = match d {
        0 => "0",
        1 => "1",
        2 => "2",
        3 => "3",
        4 => "4",
        5 => "5",
        6 => "6",
        7 => "7",
        8 => "8",
        9 => "9",
        10 => "A",
        11 => "B",
        12 => "C",
        13 => "D",
        14 => "E",
        _ => "F",
    };
    assert(r@ =~= seq![hex_upper(d as int)]);
    r
}

/// Appends the two hexadecimal digits of a byte.
fn push_byte_hex(s: &mut String, b: u8)
    ensures
        final(s)@ == old(s)@ + byte_hex(b),
{
    s.append(hex_digit(b / 16));
    s.append(hex_digit(b % 16));
    assert(s@ =~= old(s)@ + byte_hex(b));
}

/// The lookup key of a hardware address.
pub fn mac_prefix(m: MacAddr) -> (r: String)
    ensures
        r@ == oui_key(m),
{
    let mut s = String::new();
    push_byte_hex(&mut s, m.0);
    push_byte_hex(&mut s, m.1);
    push_byte_hex(&mut s, m.2);
    assert(s@ =~= oui_key(m));
    s
}

/// The lookup key of any hardware address is six uppercase hexadecimal
/// digits.
pub proof fn lemma_oui_key_shape(m: MacAddr)
    ensures
        oui_key(m).len() == 6,
        forall|i: int| 0 <= i < 6 ==> is_upper_hex(#[trigger] oui_key(m)[i]),
{
    let k = oui_key(m);
    assert forall|i: int| 0 <= i < 6 implies is_upper_hex(#[trigger] k[i]) by {
        let b = if i < 2 { m.0 } else if i < 4 { m.1 } else { m.2 };
        assert(k[i] == hex_upper(b as int / 16) || k[i] == hex_upper(b as int % 16));
    }
}

/// Names what `str::lines` yields for a text.
pub uninterp spec fn lines_of(text: Seq<char>) -> Seq<Seq<char>>;

/// Relies on `str::lines`: splits a text into its lines, each without its
/// line ending.
#[verifier::external_body]
fn text_lines(text: &str) -> (r: Vec<&str>)
    ensures
        r@.map_values(|l: &str| l@) == lines_of(text@),
{
    text.lines().collect()
}

/// Whether `i` is the position of the first space of `l`.
pub open spec fn is_first_space(l: Seq<char>, i: int) -> bool {
    &&& 0 <= i < l.len()
    &&& l[i] == ' '
    &&& forall|j: int| 0 <= j < i ==> l[j] != ' '
}

/// Whether a text is a vendor prefix: six uppercase hexadecimal digits.
pub open spec fn is_oui_prefix(p: Seq<char>) -> bool {
    p.len() == 6 && forall|i: int| 0 <= i < 6 ==> is_upper_hex(#[trigger] p[i])
}

/// A database line read as (prefix, vendor): the text before its first
/// space and the text after it, where that text is a vendor prefix. Any
/// other line (a comment, a line without a space, an unknown line) is
/// skipped.
pub open spec fn parse_prefix_line(l: Seq<char>) -> Option<(Seq<char>, Seq<char>)> {
    if exists|i: int| is_first_space(l, i) {
        let i = choose|i: int| is_first_space(l, i);
        if is_oui_prefix(l.subrange(0, i)) {
            Some((l.subrange(0, i), l.subrange(i + 1, l.len() as int)))
        } else {
            None
        }
    } else {
        None
    }
}

/// Every entry that the database parse keeps has a vendor prefix as key.
pub proof fn lemma_parse_table_prefixes(lines: Seq<Seq<char>>)
    ensures
        forall|k: int| 0 <= k < parse_table(lines).len() ==> is_oui_prefix(#[trigger] parse_table(lines)[k].0),
    decreases lines.len(),
{
    if lines.len() > 0 {
        lemma_parse_table_prefixes(lines.drop_last());
        let prev = parse_table(lines.drop_last());
        assert forall|k: int| 0 <= k < parse_table(lines).len() implies is_oui_prefix(#[trigger] parse_table(lines)[k].0) by {
            if k < prev.len() {
                assert(parse_table(lines)[k] == prev[k]);
            }
        }
    }
}

fn upper_hex(c: char) -> (r: bool)
    ensures
        r == is_upper_hex(c),
{
    ('0' <= c && c <= '9') || ('A' <= c && c <= 'F')
}

/// The table that a sequence of database lines gives, in line order.
pub open spec fn parse_table(lines: Seq<Seq<char>>) -> Seq<(Seq<char>, Seq<char>)>
    decreases lines.len(),
{
    if lines.len() == 0 {
        Seq::empty()
    } else {
        match parse_prefix_line(lines.last()) {
            Some(e) => parse_table(lines.drop_last()).push(e),
            None => parse_table(lines.drop_last()),
        }
    }
}

/// The (prefix, vendor) pairs of a table.
pub open spec fn table_view(t: Seq<NmapMacPrefix>) -> Seq<(Seq<char>, Seq<char>)> {
    t.map_values(|p: NmapMacPrefix| (p.prefix@, p.ouis@))
}

/// The vendor that a table gives a key: the last entry with that exact
/// prefix wins; with none, the empty string.
pub open spec fn vendor_of(t: Seq<(Seq<char>, Seq<char>)>, key: Seq<char>) -> Seq<char>
    decreases t.len(),
{
    if t.len() == 0 {
        Seq::empty()
    } else if t.last().0 == key {
        t.last().1
    } else {
        vendor_of(t.drop_last(), key)
    }
}

/// Reads one database line.
pub fn parse_mac_prefix_line(line: &str) -> (r: Option<NmapMacPrefix>)
    ensures
        match r {
            Some(p) => parse_prefix_line(line@) == Some((p.prefix@, p.ouis@)),
            None => parse_prefix_line(line@) is None,
        },
{
    let n = line.unicode_len();
    let mut i: usize = 0;
    while i < n
        invariant
            n == line@.len(),
            i <= n,
            forall|j: int| 0 <= j < i ==> line@[j] != ' ',
        decreases n - i,
    {
        if line.get_char(i) == ' ' {
            assert(is_first_space(line@, i as int));
            let ghost k = choose|k: int| is_first_space(line@, k);
            assert(k == i as int) by {
                if k < i as int {
                    assert(line@[k] != ' ');
                } else if k > i as int {
                    assert(line@[i as int] != ' ');
                }
            }
            let head = line.substring_char(0, i);
            if i != 6 {
                return None;
            }
            let mut j: usize = 0;
            while j < 6
                invariant
                    head@ == line@.subrange(0, 6),
                    head@.len() == 6,
                    n == line@.len(),
                    is_first_space(line@, 6),
                    j <= 6,
                    forall|q: int| 0 <= q < j ==> is_upper_hex(#[trigger] head@[q]),
                decreases 6 - j,
            {
                if !upper_hex(head.get_char(j)) {
                    return None;
                }
                j = j + 1;
            }
            let prefix = String::from_str(head);
            let ouis = String::from_str(line.substring_char(i + 1, n));
            return Some(NmapMacPrefix { prefix, ouis });
        }
        i = i + 1;
    }
    assert(!exists|k: int| is_first_space(line@, k)) by {
        if exists|k: int| is_first_space(line@, k) {
            let k = choose|k: int| is_first_space(line@, k);
            assert(line@[k] != ' ');
        }
    }
    None
}

/// Reads the vendor table from the database's lines, skipping comments
/// and lines it cannot read.
pub fn parse_mac_prefix_lines(lines: &Vec<&str>) -> (r: Vec<NmapMacPrefix>)
    ensures
        table_view(r@) == parse_table(lines@.map_values(|l: &str| l@)),
{
    let ghost all = lines@.map_values(|l: &str| l@);
    let mut out: Vec<NmapMacPrefix> = Vec::new();
    let mut i: usize = 0;
    assert(all.take(0) =~= Seq::<Seq<char>>::empty());
    assert(table_view(out@) =~= parse_table(all.take(0)));
    while i < lines.len()
        invariant
            i <= lines@.len(),
            all == lines@.map_values(|l: &str| l@),
            table_view(out@) == parse_table(all.take(i as int)),
        decreases lines@.len() - i,
    {
        let ghost before = out@;
        assert(all.take(i as int + 1).drop_last() =~= all.take(i as int));
        assert(all.take(i as int + 1).last() == lines@[i as int]@);
        match parse_mac_prefix_line(lines[i]) {
            Some(p) => {
                out.push(p);
                assert(table_view(out@) =~= table_view(before).push((out@.last().prefix@, out@.last().ouis@)));
            },
            None => {},
        }
        i = i + 1;
    }
    assert(all.take(i as int) =~= all);
    out
}

/// Reads the vendor table from the database text.
pub fn get_nmap_mac_prefixes(db: &str) -> (r: Vec<NmapMacPrefix>)
    ensures
        table_view(r@) == parse_table(lines_of(db@)),
{
    let lines = text_lines(db);
    parse_mac_prefix_lines(&lines)
}

/// The vendor of a hardware address: the last table entry whose prefix is
/// the address's lookup key, or the empty string.
pub fn lookup_vendor(table: &Vec<NmapMacPrefix>, m: MacAddr) -> (r: String)
    ensures
        r@ == vendor_of(table_view(table@), oui_key(m)),
{
    let key = mac_prefix(m);
    let mut vendor = String::new();
    let mut i: usize = 0;
    let ghost t = table_view(table@);
    assert(t.take(0) =~= Seq::<(Seq<char>, Seq<char>)>::empty());
    while i < table.len()
        invariant
            i <= table@.len(),
            t == table_view(table@),
            key@ == oui_key(m),
            vendor@ == vendor_of(t.take(i as int), oui_key(m)),
        decreases table@.len() - i,
    {
        assert(t.take(i as int + 1).drop_last() =~= t.take(i as int));
        if table[i].prefix == key {
            vendor = table[i].ouis.clone();
        }
        i = i + 1;
    }
    assert(t.take(i as int) =~= t);
    vendor
}

} // verus!
