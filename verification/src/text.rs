//! Text: numbers in decimal, bytes in hex, and maps from text to text.

use vstd::prelude::*;
use vstd::string::StringExecFns;

verus! {

/// `String::push`: the text with one character more at its end.
#[verifier::external_body]
pub(crate) fn push_char(s: &mut String, c: char)
    ensures
        final(s)@ == old(s)@.push(c),
{
    s.push(c)
}

/// The character of a digit below ten.
pub open spec fn digit_char(d: nat) -> char
    recommends
        d < 10,
{
    (48 + d) as char
}

/// The decimal digits of a number, without leading zeros.
pub open spec fn decimal(n: nat) -> Seq<char>
    decreases n,
{
    if n < 10 {
        seq![digit_char(n)]
    } else {
        decimal(n / 10).push(digit_char(n % 10))
    }
}

/// A number in decimal.
pub fn usize_to_string(n: usize) -> (s: String)
    ensures
        s@ == decimal(n as nat),
{
    let mut digits: Vec<char> = Vec::new();
    let mut rest: usize = n;
    while rest >= 10
        invariant
            decimal(n as nat) == decimal(rest as nat) + digits@.reverse(),
        decreases rest,
    {
        let d: u8 = (rest % 10) as u8;
        let c = (48u8 + d) as char;
        proof {
            let before = digits@;
            let after = digits@.push(c);
            assert(decimal(rest as nat) == decimal((rest / 10) as nat).push(c));
            assert(after.reverse() =~= seq![c] + before.reverse());
            assert(decimal((rest / 10) as nat).push(c) + before.reverse() =~= decimal(
                (rest / 10) as nat,
            ) + after.reverse());
        }
        digits.push(c);
        rest = rest / 10;
    }
    let mut s = String::new();
    let first = (48u8 + (rest as u8)) as char;
    push_char(&mut s, first);
    assert(s@ =~= decimal(rest as nat));
    let mut i: usize = digits.len();
    while i > 0
        invariant
            i <= digits.len(),
            s@ == decimal(rest as nat) + digits@.reverse().take(digits.len() - i),
        decreases i,
    {
        i -= 1;
        proof {
            let r = digits@.reverse();
            let k = digits.len() - i - 1;
            assert(r[k] == digits@[i as int]);
            assert(r.take(k + 1) =~= r.take(k).push(r[k]));
            assert((decimal(rest as nat) + r.take(k)).push(r[k]) =~= decimal(rest as nat) + r.take(
                k + 1,
            ));
        }
        push_char(&mut s, digits[i]);
    }
    proof {
        let r = digits@.reverse();
        assert(r.take(digits.len() as int) =~= r);
    }
    s
}

/// The character of a hex digit below sixteen, in lower case.
pub open spec fn hex_char(d: nat) -> char
    recommends
        d < 16,
{
    if d < 10 {
        (48 + d) as char
    } else {
        (87 + d) as char
    }
}

/// The bytes in hex, two lower case digits a byte.
pub open spec fn hex(bytes: Seq<u8>) -> Seq<char>
    decreases bytes.len(),
{
    if bytes.len() == 0 {
        Seq::empty()
    } else {
        hex(bytes.drop_last()).push(hex_char((bytes.last() / 16) as nat)).push(
            hex_char((bytes.last() % 16) as nat),
        )
    }
}

/// One hex digit.
fn hex_digit(d: u8) -> (c: char)
    requires
        d < 16,
    ensures
        c == hex_char(d as nat),
{
    if d < 10 {
        (48u8 + d) as char
    } else {
        (87u8 + d) as char
    }
}

/// The bytes in hex.
pub fn bytes_to_hex(bytes: &[u8]) -> (s: String)
    ensures
        s@ == hex(bytes@),
{
    let mut s = String::new();
    let mut i: usize = 0;
    assert(bytes@.take(0) =~= Seq::<u8>::empty());
    while i < bytes.len()
        invariant
            i <= bytes.len(),
            s@ == hex(bytes@.take(i as int)),
        decreases bytes.len() - i,
    {
        proof {
            assert(bytes@.take(i as int + 1).drop_last() =~= bytes@.take(i as int));
            assert(bytes@.take(i as int + 1).last() == bytes@[i as int]);
        }
        let b = bytes[i];
        push_char(&mut s, hex_digit(b / 16));
        push_char(&mut s, hex_digit(b % 16));
        i += 1;
    }
    assert(bytes@.take(i as int) =~= bytes@);
    s
}

/// The value of a hex digit in either case, if the byte is one.
pub open spec fn hex_value(c: u8) -> Option<u8> {
    if 48 <= c <= 57 {
        Some((c - 48) as u8)
    } else if 97 <= c <= 102 {
        Some((c - 87) as u8)
    } else if 65 <= c <= 70 {
        Some((c - 55) as u8)
    } else {
        None
    }
}

/// The bytes that an even number of hex digits spell, or `None` where the
/// text has an odd length or holds anything but hex digits.
pub open spec fn unhex(text: Seq<u8>) -> Option<Seq<u8>>
    decreases text.len(),
{
    if text.len() == 0 {
        Some(Seq::empty())
    } else if text.len() == 1 {
        None
    } else {
        match (
            unhex(text.take(text.len() - 2)),
            hex_value(text[text.len() - 2]),
            hex_value(text[text.len() - 1]),
        ) {
            (Some(front), Some(high), Some(low)) => Some(front.push((high * 16 + low) as u8)),
            _ => None,
        }
    }
}

/// The value of one hex digit.
fn hex_digit_value(c: u8) -> (v: Option<u8>)
    ensures
        v == hex_value(c),
        v matches Some(d) ==> d < 16,
{
    if 48 <= c && c <= 57 {
        Some(c - 48)
    } else if 97 <= c && c <= 102 {
        Some(c - 87)
    } else if 65 <= c && c <= 70 {
        Some(c - 55)
    } else {
        None
    }
}

/// Where one pair of hex digits is bad, the text that starts with them is.
proof fn lemma_unhex_front(text: Seq<u8>, upto: int)
    requires
        0 <= upto <= text.len(),
        upto % 2 == 0,
        text.len() % 2 == 0,
        unhex(text.take(upto)) is None,
    ensures
        unhex(text) is None,
    decreases text.len() - upto,
{
    if upto == text.len() {
        assert(text.take(upto) =~= text);
    } else {
        let longer = text.take(upto + 2);
        assert(longer.take(longer.len() - 2) =~= text.take(upto));
        lemma_unhex_front(text, upto + 2);
    }
}

/// The bytes that the hex digits `text` spell.
pub fn hex_to_bytes(text: &[u8]) -> (res: Option<Vec<u8>>)
    ensures
        match res {
            Some(v) => unhex(text@) == Some(v@),
            None => unhex(text@) is None,
        },
{
    if text.len() % 2 != 0 {
        proof {
            lemma_unhex_odd(text@);
        }
        return None;
    }
    let mut out: Vec<u8> = Vec::new();
    let mut i: usize = 0;
    assert(text@.take(0) =~= Seq::<u8>::empty());
    while i < text.len()
        invariant
            i <= text.len(),
            i % 2 == 0,
            text.len() % 2 == 0,
            unhex(text@.take(i as int)) == Some(out@),
        decreases text.len() - i,
    {
        let ghost longer = text@.take(i as int + 2);
        proof {
            assert(longer.take(longer.len() - 2) =~= text@.take(i as int));
            assert(longer[longer.len() - 2] == text@[i as int]);
            assert(longer[longer.len() - 1] == text@[i as int + 1]);
        }
        match (hex_digit_value(text[i]), hex_digit_value(text[i + 1])) {
            (Some(high), Some(low)) => {
                out.push(high * 16 + low);
            },
            _ => {
                proof {
                    lemma_unhex_front(text@, i as int + 2);
                }
                return None;
            },
        }
        i += 2;
    }
    assert(text@.take(i as int) =~= text@);
    Some(out)
}

/// A text of odd length spells no bytes.
proof fn lemma_unhex_odd(text: Seq<u8>)
    requires
        text.len() % 2 == 1,
    ensures
        unhex(text) is None,
    decreases text.len(),
{
    if text.len() > 1 {
        lemma_unhex_odd(text.take(text.len() - 2));
    }
}

/// The characters that bytes stand for, one a byte.
pub open spec fn text_of(bytes: Seq<u8>) -> Seq<char> {
    Seq::new(bytes.len(), |i: int| bytes[i] as char)
}

/// Appends to `s` the characters that the bytes stand for.
pub fn push_bytes(s: &mut String, bytes: &[u8])
    ensures
        final(s)@ == old(s)@ + text_of(bytes@),
{
    let mut i: usize = 0;
    assert(old(s)@ + text_of(bytes@).take(0) =~= old(s)@);
    while i < bytes.len()
        invariant
            i <= bytes.len(),
            s@ == old(s)@ + text_of(bytes@).take(i as int),
        decreases bytes.len() - i,
    {
        proof {
            let t = text_of(bytes@);
            assert((old(s)@ + t.take(i as int)).push(t[i as int]) =~= old(s)@ + t.take(
                i as int + 1,
            ));
        }
        push_char(s, bytes[i] as char);
        i += 1;
    }
    assert(text_of(bytes@).take(i as int) =~= text_of(bytes@));
}

/// One entry of a map from text to text.
pub struct TextEntry {
    pub key: String,
    pub value: String,
}

/// A map from text to text. An entry for a key that is there takes the
/// place of that key's earlier entry.
pub struct TextMap {
    entries: Vec<TextEntry>,
}

/// The map that a sequence of entries stands for.
pub closed spec fn text_entries_map(entries: Seq<TextEntry>) -> Map<Seq<char>, Seq<char>>
    decreases entries.len(),
{
    if entries.len() == 0 {
        Map::empty()
    } else {
        text_entries_map(entries.drop_last()).insert(entries.last().key@, entries.last().value@)
    }
}

impl TextMap {
    /// The value of each key.
    pub closed spec fn view(&self) -> Map<Seq<char>, Seq<char>> {
        text_entries_map(self.entries@)
    }

    /// The empty map.
    pub fn new() -> (m: TextMap)
        ensures
            m@ == Map::<Seq<char>, Seq<char>>::empty(),
    {
        TextMap { entries: Vec::new() }
    }

    /// Sets the value of `key`.
    pub fn insert(&mut self, key: String, value: String)
        ensures
            final(self)@ == old(self)@.insert(key@, value@),
    {
        proof {
            assert(self.entries@.push(TextEntry { key, value }).drop_last() =~= self.entries@);
        }
        self.entries.push(TextEntry { key, value });
    }

    /// The value of `key`, if it has one.
    pub fn get(&self, key: &str) -> (res: Option<String>)
        ensures
            match res {
                Some(v) => self@.contains_key(key@) && self@[key@] == v@,
                None => !self@.contains_key(key@),
            },
    {
        let mut i: usize = self.entries.len();
        proof {
            assert(self.entries@.take(i as int) =~= self.entries@);
        }
        let wanted = key.to_owned();
        while i > 0
            invariant
                i <= self.entries.len(),
                wanted@ == key@,
                self@.contains_key(key@) == text_entries_map(
                    self.entries@.take(i as int),
                ).contains_key(key@),
                self@.contains_key(key@) ==> self@[key@] == text_entries_map(
                    self.entries@.take(i as int),
                )[key@],
            decreases i,
        {
            i -= 1;
            proof {
                let upto = self.entries@.take(i as int + 1);
                assert(upto.drop_last() =~= self.entries@.take(i as int));
                assert(upto.last() == self.entries@[i as int]);
            }
            if self.entries[i].key == wanted {
                return Some(self.entries[i].value.clone());
            }
        }
        None
    }

    /// The number of entries that were put in, those that were replaced
    /// among them.
    pub closed spec fn count(&self) -> nat {
        self.entries@.len()
    }

    /// The number of entries that were put in, those that were replaced
    /// among them.
    pub fn len(&self) -> (n: usize)
        ensures
            n == self.count(),
    {
        self.entries.len()
    }

    /// The key and the value of the entry at `index`, in the order in
    /// which the entries were put in.
    pub fn entry(&self, index: usize) -> (res: Option<(String, String)>)
        ensures
            res is Some <==> index < self.count(),
    {
        if index < self.entries.len() {
            Some((self.entries[index].key.clone(), self.entries[index].value.clone()))
        } else {
            None
        }
    }

    /// Hands out the map and leaves the empty map in its place.
    pub fn take(&mut self) -> (taken: TextMap)
        ensures
            taken@ == old(self)@,
            final(self)@ == Map::<Seq<char>, Seq<char>>::empty(),
    {
        let mut taken = TextMap::new();
        std::mem::swap(self, &mut taken);
        taken
    }
}

} // verus!
