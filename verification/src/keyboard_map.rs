//! Which key of the host's keyboard stands for which key of the keypad.

use crate::keyboard::Key;
use vstd::prelude::*;

verus! {

/// The map that a list of entries stands for; of two entries with one name
/// the later one counts.
pub open spec fn keys_of(entries: Seq<(String, u8)>) -> Map<Seq<char>, u8>
    decreases entries.len(),
{
    if entries.len() == 0 {
        Map::empty()
    } else {
        keys_of(entries.drop_last()).insert(entries.last().0@, entries.last().1)
    }
}

/// The keys that stand for themselves: the digits `0` to `9` and the letters
/// `a` to `f`.
pub open spec fn default_keys() -> Map<Seq<char>, u8> {
    Map::<Seq<char>, u8>::empty().insert("0"@, 0x0).insert("1"@, 0x1).insert("2"@, 0x2).insert(
        "3"@,
        0x3,
    ).insert("4"@, 0x4).insert("5"@, 0x5).insert("6"@, 0x6).insert("7"@, 0x7).insert(
        "8"@,
        0x8,
    ).insert("9"@, 0x9).insert("a"@, 0xA).insert("b"@, 0xB).insert("c"@, 0xC).insert(
        "d"@,
        0xD,
    ).insert("e"@, 0xE).insert("f"@, 0xF)
}

/// A table from the names of the host's keys to the numbers of keypad keys.
pub struct KeyboardMap {
    keys: Vec<(String, u8)>,
}

impl View for KeyboardMap {
    type V = Map<Seq<char>, u8>;

    closed spec fn view(&self) -> Map<Seq<char>, u8> {
        keys_of(self.keys@)
    }
}

impl KeyboardMap {
    /// The table that a list of entries stands for.
    pub fn from_entries(entries: Vec<(String, u8)>) -> (m: KeyboardMap)
        ensures
            m@ == keys_of(entries@),
    {
        KeyboardMap { keys: entries }
    }

    /// The entries of the table.
    pub fn into_entries(self) -> (entries: Vec<(String, u8)>)
        ensures
            keys_of(entries@) == self@,
    {
        self.keys
    }

    /// The keypad key that the host's key `s` stands for: none where the
    /// table lacks `s`, and none where it gives `s` a number that is no key's.
    pub fn key(&self, s: &str) -> (r: Option<Key>)
        ensures
            r == if self@.contains_key(s@) {
                Key::numbered(self@[s@] as int)
            } else {
                None
            },
    {
        let name = s.to_owned();
        let mut i = self.keys.len();
        assert(self.keys@.take(i as int) =~= self.keys@);
        while i > 0
            invariant
                i <= self.keys@.len(),
                name@ == s@,
                self@.contains_key(s@) == keys_of(self.keys@.take(i as int)).contains_key(s@),
                self@.contains_key(s@) ==> self@[s@] == keys_of(self.keys@.take(i as int))[s@],
            decreases i,
        {
            proof {
                let part = self.keys@.take(i as int);
                assert(part.drop_last() =~= self.keys@.take(i - 1));
                assert(part.last() == self.keys@[i - 1]);
            }
            i -= 1;
            if self.keys[i].0 == name {
                return Key::from(self.keys[i].1);
            }
        }
        None
    }
}

impl Default for KeyboardMap {
    /// The table in which the digits and the letters `a` to `f` stand for
    /// themselves.
    fn default() -> (m: KeyboardMap)
        ensures
            m@ == default_keys(),
    {
        let mut keys: Vec<(String, u8)> = Vec::new();
        keys.push(("0".to_owned(), 0x0));
        keys.push(("1".to_owned(), 0x1));
        keys.push(("2".to_owned(), 0x2));
        keys.push(("3".to_owned(), 0x3));
        keys.push(("4".to_owned(), 0x4));
        keys.push(("5".to_owned(), 0x5));
        keys.push(("6".to_owned(), 0x6));
        keys.push(("7".to_owned(), 0x7));
        keys.push(("8".to_owned(), 0x8));
        keys.push(("9".to_owned(), 0x9));
        keys.push(("a".to_owned(), 0xA));
        keys.push(("b".to_owned(), 0xB));
        keys.push(("c".to_owned(), 0xC));
        keys.push(("d".to_owned(), 0xD));
        keys.push(("e".to_owned(), 0xE));
        keys.push(("f".to_owned(), 0xF));
        proof {
            lemma_keys_of_sixteen(keys@);
        }
        KeyboardMap { keys }
    }
}

/// What a list of sixteen entries stands for, written out.
proof fn lemma_keys_of_sixteen(e: Seq<(String, u8)>)
    requires
        e.len() == 16,
    ensures
        keys_of(e) == Map::<Seq<char>, u8>::empty().insert(e[0].0@, e[0].1).insert(
            e[1].0@,
            e[1].1,
        ).insert(e[2].0@, e[2].1).insert(e[3].0@, e[3].1).insert(e[4].0@, e[4].1).insert(
            e[5].0@,
            e[5].1,
        ).insert(e[6].0@, e[6].1).insert(e[7].0@, e[7].1).insert(e[8].0@, e[8].1).insert(
            e[9].0@,
            e[9].1,
        ).insert(e[10].0@, e[10].1).insert(e[11].0@, e[11].1).insert(e[12].0@, e[12].1).insert(
            e[13].0@,
            e[13].1,
        ).insert(e[14].0@, e[14].1).insert(e[15].0@, e[15].1),
{
    reveal_with_fuel(keys_of, 17);
    let e15 = e.drop_last();
    let e14 = e15.drop_last();
    let e13 = e14.drop_last();
    let e12 = e13.drop_last();
    let e11 = e12.drop_last();
    let e10 = e11.drop_last();
    let e9 = e10.drop_last();
    let e8 = e9.drop_last();
    let e7 = e8.drop_last();
    let e6 = e7.drop_last();
    let e5 = e6.drop_last();
    let e4 = e5.drop_last();
    let e3 = e4.drop_last();
    let e2 = e3.drop_last();
    let e1 = e2.drop_last();
    let e0 = e1.drop_last();
    assert(e0.len() == 0);
}

} // verus!
