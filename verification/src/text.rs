//! Strings: comparison, and maps that are keyed by them.

use vstd::prelude::*;

verus! {

/// The characters of an optional string.
pub open spec fn characters(text: Option<String>) -> Option<Seq<char>> {
    match text {
        Some(text) => Some(text@),
        None => None,
    }
}

/// Whether two strings hold the same characters.
pub fn same(a: &String, b: &String) -> (r: bool)
    ensures
        r == (a@ == b@),
{
    *a == *b
}

/// Whether a text reads like another.
pub fn reads(a: &String, b: &str) -> (r: bool)
    ensures
        r == (a@ == b@),
{
    same(a, &b.to_owned())
}

/// A copy of an optional string.
pub fn copy_option(a: &Option<String>) -> (r: Option<String>)
    ensures
        r == *a,
{
    match a {
        Some(a) => Some(a.clone()),
        None => None,
    }
}

/// A map from strings to values that can be copied.
#[derive(Debug, Eq, PartialEq)]
pub struct TextMap<V> {
    entries: Vec<(String, V)>,
}

/// Whether an entry has the key.
spec fn listed<V>(entries: Seq<(String, V)>, key: Seq<char>) -> bool {
    exists|i: int| 0 <= i < entries.len() && (#[trigger] entries[i]).0@ == key
}

/// The place of the first entry with the key.
spec fn place<V>(entries: Seq<(String, V)>, key: Seq<char>) -> int
    decreases entries.len(),
{
    if entries.len() == 0 || entries[0].0@ == key {
        0
    } else {
        1 + place(entries.drop_first(), key)
    }
}

proof fn first_place<V>(entries: Seq<(String, V)>, key: Seq<char>, i: int)
    requires
        0 <= i < entries.len(),
        entries[i].0@ == key,
        forall|j: int| 0 <= j < i ==> (#[trigger] entries[j]).0@ != key,
    ensures
        place(entries, key) == i,
    decreases i,
{
    if i > 0 {
        assert(entries[0].0@ != key);
        let rest = entries.drop_first();
        assert forall|j: int| 0 <= j < i - 1 implies (#[trigger] rest[j]).0@ != key by {
            assert(entries[j + 1].0@ != key);
        }
        first_place(rest, key, i - 1);
    }
}

proof fn place_is_first<V>(entries: Seq<(String, V)>, key: Seq<char>)
    requires
        listed(entries, key),
    ensures
        0 <= place(entries, key) < entries.len(),
        entries[place(entries, key)].0@ == key,
    decreases entries.len(),
{
    if entries[0].0@ != key {
        let rest = entries.drop_first();
        let i = choose|i: int| 0 <= i < entries.len() && (#[trigger] entries[i]).0@ == key;
        assert(rest[i - 1].0@ == key);
        place_is_first(rest, key);
        assert(rest[place(rest, key)] == entries[place(entries, key)]);
    }
}

/// An update or an addition of one entry leaves the first entries of all other keys.
proof fn place_survives<V>(
    before: Seq<(String, V)>,
    after: Seq<(String, V)>,
    changed: int,
    key: Seq<char>,
)
    requires
        0 <= changed < after.len(),
        before.len() <= after.len() <= before.len() + 1,
        changed < before.len() ==> after.len() == before.len() && after[changed].0@
            == before[changed].0@,
        changed >= before.len() ==> after.len() == before.len() + 1,
        forall|i: int| 0 <= i < before.len() && i != changed ==> #[trigger] after[i] == before[i],
        after[changed].0@ != key,
    ensures
        listed(after, key) == listed(before, key),
        listed(before, key) ==> after[place(after, key)].1 == before[place(before, key)].1,
    decreases before.len(),
{
    if listed(before, key) {
        let i = choose|i: int| 0 <= i < before.len() && (#[trigger] before[i]).0@ == key;
        assert(after[i].0@ == key);
    }
    if listed(after, key) {
        let i = choose|i: int| 0 <= i < after.len() && (#[trigger] after[i]).0@ == key;
        assert(i < before.len() && after[i] == before[i]);
        assert(before[i].0@ == key);
    }
    if listed(before, key) {
        place_is_first(before, key);
        let p = place(before, key);
        assert forall|j: int| 0 <= j < p implies (#[trigger] after[j]).0@ != key by {
            if before[j].0@ == key {
                places_before_miss(before, key, j);
            }
        }
        first_place(after, key, p);
    }
}

proof fn places_before_miss<V>(entries: Seq<(String, V)>, key: Seq<char>, j: int)
    requires
        0 <= j < place(entries, key),
        j < entries.len(),
    ensures
        entries[j].0@ != key,
    decreases entries.len(),
{
    if j > 0 {
        places_before_miss(entries.drop_first(), key, j - 1);
        assert(entries.drop_first()[j - 1] == entries[j]);
    }
}

/// Taking out one entry leaves the first entries of all other keys.
proof fn place_survives_removal<V>(before: Seq<(String, V)>, removed: int, key: Seq<char>)
    requires
        0 <= removed < before.len(),
        before[removed].0@ != key,
    ensures
        listed(before.remove(removed), key) == listed(before, key),
        listed(before, key) ==> before.remove(removed)[place(before.remove(removed), key)].1
            == before[place(before, key)].1,
{
    let after = before.remove(removed);
    if listed(after, key) {
        let i = choose|i: int| 0 <= i < after.len() && (#[trigger] after[i]).0@ == key;
        assert(before[if i < removed { i } else { i + 1 }].0@ == key);
    }
    if listed(before, key) {
        place_is_first(before, key);
        let p = place(before, key);
        let q = if p < removed { p } else { p - 1 };
        assert(after[q] == before[p]);
        assert forall|j: int| 0 <= j < q implies (#[trigger] after[j]).0@ != key by {
            let k = if j < removed { j } else { j + 1 };
            assert(after[j] == before[k]);
            places_before_miss(before, key, k);
        }
        first_place(after, key, q);
        assert(after[q].0@ == key);
    }
}

impl<V> View for TextMap<V> {
    type V = Map<Seq<char>, V>;

    closed spec fn view(&self) -> Map<Seq<char>, V> {
        Map::new(
            |key: Seq<char>| listed(self.entries@, key),
            |key: Seq<char>| self.entries@[place(self.entries@, key)].1,
        )
    }
}

impl<V: Copy> TextMap<V> {
    pub fn new() -> (r: Self)
        ensures
            r@ == Map::<Seq<char>, V>::empty(),
    {
        let r: TextMap<V> = TextMap { entries: Vec::new() };
        assert(r@ =~= Map::<Seq<char>, V>::empty());
        r
    }

    fn find(&self, key: &String) -> (r: Option<usize>)
        ensures
            match r {
                Some(i) => i < self.entries@.len() && self.entries@[i as int].0@ == key@
                    && self@.contains_key(key@) && self@[key@] == self.entries@[i as int].1
                    && place(self.entries@, key@) == i,
                None => !self@.contains_key(key@),
            },
    {
        let mut i: usize = 0;
        while i < self.entries.len()
            invariant
                i <= self.entries@.len(),
                forall|j: int| 0 <= j < i ==> (#[trigger] self.entries@[j]).0@ != key@,
            decreases self.entries@.len() - i,
        {
            if same(&self.entries[i].0, key) {
                proof {
                    first_place(self.entries@, key@, i as int);
                }
                return Some(i);
            }
            i = i + 1;
        }
        None
    }

    pub fn get(&self, key: &String) -> (r: Option<V>)
        ensures
            r == (if self@.contains_key(key@) {
                Some(self@[key@])
            } else {
                None
            }),
    {
        match self.find(key) {
            Some(i) => Some(self.entries[i].1),
            None => None,
        }
    }

    /// Maps `key` to `value`.
    pub fn insert(&mut self, key: &String, value: V)
        ensures
            final(self)@ == old(self)@.insert(key@, value),
    {
        let ghost before = self.entries@;
        let found: Option<usize> = self.find(key);
        let ghost changed: int = match found {
            Some(i) => i as int,
            None => before.len() as int,
        };
        match found {
            Some(i) => {
                self.entries.set(i, (key.clone(), value));
            },
            None => {
                self.entries.push((key.clone(), value));
            },
        }
        proof {
            let after = self.entries@;
            assert(after[changed].0@ == key@ && after[changed].1 == value);
            assert forall|j: int| 0 <= j < changed implies (#[trigger] after[j]).0@ != key@ by {
                if before[j].0@ == key@ {
                    if found is Some {
                        places_before_miss(before, key@, j);
                    } else {
                        assert(listed(before, key@));
                    }
                }
            }
            first_place(after, key@, changed);
            assert(listed(after, key@));
            assert forall|k: Seq<char>|
                #![trigger listed(after, k)]
                #![trigger listed(before, k)]
                k != key@ implies listed(after, k) == listed(before, k) && (listed(before, k)
                ==> after[place(after, k)].1 == before[place(before, k)].1) by {
                place_survives(before, after, changed, k);
            }
            assert(self@ =~= old(self)@.insert(key@, value));
        }
    }
}

impl<V: Copy> TextMap<V> {
    /// Takes `key` out of the map, and returns what it was mapped to.
    pub fn remove(&mut self, key: &String) -> (r: Option<V>)
        ensures
            final(self)@ == old(self)@.remove(key@),
            r == (if old(self)@.contains_key(key@) {
                Some(old(self)@[key@])
            } else {
                None
            }),
    {
        let removed: Option<V> = self.get(key);
        assert(self@.remove(key@) =~= old(self)@.remove(key@));
        loop
            invariant
                self@.remove(key@) == old(self)@.remove(key@),
            ensures
                self@ == old(self)@.remove(key@),
            decreases self.entries@.len(),
        {
            let ghost before = self.entries@;
            let ghost before_map = self@;
            match self.find(key) {
                Some(i) => {
                    self.entries.remove(i);
                    proof {
                        let after = self.entries@;
                        assert forall|k: Seq<char>|
                            #![trigger listed(after, k)]
                            #![trigger listed(before, k)]
                            k != key@ implies listed(after, k) == listed(before, k) && (listed(
                            before,
                            k,
                        ) ==> after[place(after, k)].1 == before[place(before, k)].1) by {
                            place_survives_removal(before, i as int, k);
                        }
                        assert(self@.remove(key@) =~= before_map.remove(key@));
                    }
                },
                None => {
                    assert(self@ =~= self@.remove(key@));
                    break;
                },
            }
        }
        removed
    }
}

impl<V: Copy> Clone for TextMap<V> {
    fn clone(&self) -> (r: Self)
        ensures
            r@ == self@,
    {
        let mut entries: Vec<(String, V)> = Vec::new();
        let mut i: usize = 0;
        while i < self.entries.len()
            invariant
                i <= self.entries@.len(),
                entries@ == self.entries@.take(i as int),
            decreases self.entries@.len() - i,
        {
            entries.push((self.entries[i].0.clone(), self.entries[i].1));
            i = i + 1;
            assert(entries@ =~= self.entries@.take(i as int));
        }
        assert(entries@ =~= self.entries@);
        TextMap { entries }
    }
}

/// Whether one text comes before another in the order of its characters.
pub open spec fn comes_before(a: Seq<char>, b: Seq<char>) -> bool
    decreases a.len(),
{
    if b.len() == 0 {
        false
    } else if a.len() == 0 {
        true
    } else if a[0] != b[0] {
        a[0] < b[0]
    } else {
        comes_before(a.drop_first(), b.drop_first())
    }
}

/// A text that comes before another comes before all that the other does not follow.
pub proof fn order_is_transitive(a: Seq<char>, b: Seq<char>, c: Seq<char>)
    requires
        comes_before(a, b),
        !comes_before(c, b),
    ensures
        comes_before(a, c),
    decreases a.len(),
{
    if a.len() > 0 && c.len() > 0 && a[0] == b[0] && b[0] == c[0] {
        order_is_transitive(a.drop_first(), b.drop_first(), c.drop_first());
    }
}

proof fn same_start(a: Seq<char>, b: Seq<char>, n: int)
    requires
        0 <= n <= a.len(),
        n <= b.len(),
        forall|i: int| 0 <= i < n ==> a[i] == b[i],
    ensures
        comes_before(a, b) == comes_before(a.skip(n), b.skip(n)),
    decreases n,
{
    if n == 0 {
        assert(a.skip(0) =~= a);
        assert(b.skip(0) =~= b);
    } else {
        same_start(a.drop_first(), b.drop_first(), n - 1);
        assert(a.drop_first().skip(n - 1) =~= a.skip(n));
        assert(b.drop_first().skip(n - 1) =~= b.skip(n));
    }
}

/// Whether one text comes before another in the order of its characters.
pub fn is_before(a: &String, b: &String) -> (r: bool)
    ensures
        r == comes_before(a@, b@),
{
    let x: &str = a.as_str();
    let y: &str = b.as_str();
    let n: usize = x.unicode_len();
    let m: usize = y.unicode_len();
    let mut i: usize = 0;
    while i < n && i < m
        invariant
            i <= n,
            i <= m,
            n == x@.len(),
            m == y@.len(),
            x@ == a@,
            y@ == b@,
            forall|j: int| 0 <= j < i ==> x@[j] == y@[j],
        decreases n - i,
    {
        let c: char = x.get_char(i);
        let d: char = y.get_char(i);
        if c != d {
            proof {
                same_start(a@, b@, i as int);
            }
            return c < d;
        }
        i = i + 1;
    }
    proof {
        same_start(a@, b@, i as int);
    }
    i < m
}

/// The digit of a number below sixteen.
pub open spec fn digit(n: int) -> char {
    if n == 0 {
        '0'
    } else if n == 1 {
        '1'
    } else if n == 2 {
        '2'
    } else if n == 3 {
        '3'
    } else if n == 4 {
        '4'
    } else if n == 5 {
        '5'
    } else if n == 6 {
        '6'
    } else if n == 7 {
        '7'
    } else if n == 8 {
        '8'
    } else if n == 9 {
        '9'
    } else if n == 10 {
        'a'
    } else if n == 11 {
        'b'
    } else if n == 12 {
        'c'
    } else if n == 13 {
        'd'
    } else if n == 14 {
        'e'
    } else {
        'f'
    }
}

/// The last `width` hexadecimal digits of a number.
pub open spec fn hexadecimal(n: int, width: nat) -> Seq<char>
    decreases width,
{
    if width == 0 {
        Seq::empty()
    } else {
        hexadecimal(n / 16, (width - 1) as nat).push(digit(n % 16))
    }
}

/// The decimal digits of a number.
pub open spec fn decimal(n: int) -> Seq<char>
    decreases n,
{
    if n < 10 {
        seq![digit(n)]
    } else {
        decimal(n / 10).push(digit(n % 10))
    }
}

fn digit_text(n: u64) -> (r: &'static str)
    requires
        n < 16,
    ensures
        r@ == seq![digit(n as int)],
{
    proof {
        reveal_strlit("0");
        reveal_strlit("1");
        reveal_strlit("2");
        reveal_strlit("3");
        reveal_strlit("4");
        reveal_strlit("5");
        reveal_strlit("6");
        reveal_strlit("7");
        reveal_strlit("8");
        reveal_strlit("9");
        reveal_strlit("a");
        reveal_strlit("b");
        reveal_strlit("c");
        reveal_strlit("d");
        reveal_strlit("e");
        reveal_strlit("f");
    }
    let r: &'static str = match n {
        0 => "0",
        1 => "1",
        2 => "2",
        3 => "3",
        4 => "4",
        5 => "5",
        6 => "6",
        7 => "7",
        8 => "8",
        9 => "9",
        10 => "a",
        11 => "b",
        12 => "c",
        13 => "d",
        14 => "e",
        _ => "f",
    };
    assert(r@ =~= seq![digit(n as int)]);
    r
}

/// Adds the last `width` hexadecimal digits of a number to a text.
pub fn push_hexadecimal(text: &mut String, n: u64, width: u8)
    ensures
        final(text)@ == old(text)@ + hexadecimal(n as int, width as nat),
    decreases width,
{
    if width > 0 {
        push_hexadecimal(text, n / 16, width - 1);
        let ghost before = text@;
        text.append(digit_text(n % 16));
        assert(text@ =~= before.push(digit(n as int % 16)));
        assert(text@ =~= old(text)@ + hexadecimal(n as int, width as nat));
    } else {
        assert(text@ =~= old(text)@ + hexadecimal(n as int, 0));
    }
}

/// Adds the decimal digits of a number to a text.
pub fn push_decimal(text: &mut String, n: u64)
    ensures
        final(text)@ == old(text)@ + decimal(n as int),
{
    push_wide_decimal(text, n as u128);
}

/// Adds the decimal digits of a number to a text.
pub fn push_wide_decimal(text: &mut String, n: u128)
    ensures
        final(text)@ == old(text)@ + decimal(n as int),
    decreases n,
{
    if n >= 10 {
        push_wide_decimal(text, n / 10);
    }
    let ghost before = text@;
    text.append(digit_text((n % 10) as u64));
    assert(text@ =~= before.push(digit(n as int % 10)));
    assert(text@ =~= old(text)@ + decimal(n as int));
}

/// Whether a character is white space: those with the Unicode property of that name.
pub open spec fn whitespace(c: char) -> bool {
    let n = c as u32;
    ||| 0x9 <= n <= 0xd
    ||| n == 0x20
    ||| n == 0x85
    ||| n == 0xa0
    ||| n == 0x1680
    ||| 0x2000 <= n <= 0x200a
    ||| n == 0x2028
    ||| n == 0x2029
    ||| n == 0x202f
    ||| n == 0x205f
    ||| n == 0x3000
}

/// Whether a character is white space.
pub fn is_whitespace(c: char) -> (r: bool)
    ensures
        r == whitespace(c),
{
    let n: u32 = c as u32;
    (0x9 <= n && n <= 0xd) || n == 0x20 || n == 0x85 || n == 0xa0 || n == 0x1680 || (0x2000 <= n
        && n <= 0x200a) || n == 0x2028 || n == 0x2029 || n == 0x202f || n == 0x205f || n == 0x3000
}

/// The characters of a text.
pub fn chars_of(text: &str) -> (r: Vec<char>)
    ensures
        r@ == text@,
{
    let mut chars: Vec<char> = Vec::new();
    let mut rest: std::str::Chars = text.chars();
    let ghost mut left = text@;
    assert(chars@ + left =~= text@);
    loop
        invariant
            left == vstd::std_specs::iter::IteratorSpec::remaining(&rest),
            chars@ + left == text@,
        ensures
            chars@ == text@,
        decreases left.len(),
    {
        match rest.next() {
            Some(c) => {
                chars.push(c);
                proof {
                    assert(chars@ + left.drop_first() =~= text@);
                    left = left.drop_first();
                }
            },
            None => {
                assert(chars@ + left =~= chars@);
                break;
            },
        }
    }
    chars
}

/// A number in decimal, with a sign where it is negative.
pub open spec fn signed_decimal(n: int) -> Seq<char> {
    if n < 0 {
        seq!['-'] + decimal(-n)
    } else {
        decimal(n)
    }
}

/// Adds a number in decimal to a text.
pub fn push_signed(text: &mut String, n: i64)
    ensures
        final(text)@ == old(text)@ + signed_decimal(n as int),
{
    if n < 0 {
        proof {
            reveal_strlit("-");
        }
        text.append("-");
        let size: u64 = if n == i64::MIN { 0x8000_0000_0000_0000 } else { (-n) as u64 };
        push_decimal(text, size);
        assert("-"@ =~= seq!['-']);
        assert(text@ =~= old(text)@ + signed_decimal(n as int));
    } else {
        push_decimal(text, n as u64);
    }
}

/// A text between quotes, with what needs it escaped, as `std` writes a string for debugging.
pub uninterp spec fn quoted(text: Seq<char>) -> Seq<char>;

/// Quotes a text by the `Debug` implementation of `str` in `std`. The result depends on the text
/// alone; which characters are escaped, and how, is left to `std`.
#[verifier::external_body]
pub(crate) fn quote(text: &str) -> (r: String)
    ensures
        r@ == quoted(text@),
{
    format!("{:?}", text)
}

} // verus!
