//! Environment overrides for a child, and the block of bytes they arrive in.
//!
//! The block is a run of entries, each closed by a zero byte; an empty entry
//! ends it. An entry that is valid UTF-8 and holds `=` after a non-empty key
//! sets that key; any other entry is passed over. Where a key comes twice,
//! the later entry wins.

use vstd::prelude::*;
use vstd::slice::slice_subrange;
use vstd::string::*;
use vstd::utf8::*;

verus! {

/// The byte that closes an entry.
pub const NUL: u8 = 0;

/// The byte between key and value.
pub const EQUALS: u8 = 0x3d;

/// A variable as plain text: key, then value.
pub type Pair = (Seq<char>, Seq<char>);

/// The error of `core::str::from_utf8`; nothing is read from it.
#[verifier::external_type_specification]
#[verifier::external_body]
pub struct ExUtf8Error(core::str::Utf8Error);

/// `core::str::from_utf8` accepts exactly the byte strings that are valid
/// UTF-8, and the string slice it returns has the bytes it was given.
pub assume_specification[ core::str::from_utf8 ](v: &[u8]) -> (res: Result<
    &str,
    core::str::Utf8Error,
>)
    ensures
        res is Ok <==> valid_utf8(v@),
        res matches Ok(s) ==> s.spec_bytes() == v@,
;

/// Index of the first `byte` in `s`, or the length of `s` where it has none.
pub open spec fn position(s: Seq<u8>, byte: u8) -> int
    decreases s.len(),
{
    if s.len() == 0 || s[0] == byte {
        0
    } else {
        1 + position(s.drop_first(), byte)
    }
}

/// `position` is the least index that holds `byte`, or the length.
pub proof fn lemma_position(s: Seq<u8>, byte: u8)
    ensures
        0 <= position(s, byte) <= s.len(),
        position(s, byte) < s.len() ==> s[position(s, byte)] == byte,
        forall|j: int| 0 <= j < position(s, byte) ==> s[j] != byte,
    decreases s.len(),
{
    if s.len() != 0 && s[0] != byte {
        let rest = s.drop_first();
        lemma_position(rest, byte);
        assert forall|j: int| 0 <= j < position(s, byte) implies s[j] != byte by {
            if j > 0 {
                assert(s[j] == rest[j - 1]);
            }
        }
    }
}

/// An index that holds `byte`, or is the length, with no `byte` before it, is
/// the `position`.
pub proof fn lemma_position_unique(s: Seq<u8>, byte: u8, i: int)
    requires
        0 <= i <= s.len(),
        i < s.len() ==> s[i] == byte,
        forall|j: int| 0 <= j < i ==> s[j] != byte,
    ensures
        position(s, byte) == i,
    decreases s.len(),
{
    if i > 0 {
        let rest = s.drop_first();
        assert forall|j: int| 0 <= j < i - 1 implies rest[j] != byte by {
            assert(rest[j] == s[j + 1]);
        }
        lemma_position_unique(rest, byte, i - 1);
    }
}

/// The variable that an entry sets, if it sets one: the entry is valid UTF-8
/// and has its first `=` after at least one byte of key.
pub open spec fn entry_pair(entry: Seq<u8>) -> Option<Pair> {
    let eq = position(entry, EQUALS);
    if valid_utf8(entry) && 0 < eq < entry.len() {
        Some(
            (
                decode_utf8(entry.subrange(0, eq)),
                decode_utf8(entry.subrange(eq + 1, entry.len() as int)),
            ),
        )
    } else {
        None
    }
}

/// The variables so far, with what `entry` sets added to them.
pub open spec fn record(vars: Map<Seq<char>, Seq<char>>, entry: Seq<u8>) -> Map<
    Seq<char>,
    Seq<char>,
> {
    match entry_pair(entry) {
        Some((key, value)) => vars.insert(key, value),
        None => vars,
    }
}

/// What follows the entry of `len` bytes at the start of `block`, its closing
/// zero byte left out.
pub open spec fn after_entry(block: Seq<u8>, len: int) -> Seq<u8> {
    if len < block.len() {
        block.subrange(len + 1, block.len() as int)
    } else {
        Seq::empty()
    }
}

/// The variables that `block` leaves when read entry by entry on top of
/// `vars`, up to the first empty entry or the end of the block.
pub open spec fn scan(vars: Map<Seq<char>, Seq<char>>, block: Seq<u8>) -> Map<
    Seq<char>,
    Seq<char>,
>
    decreases block.len(),
{
    let len = position(block, NUL);
    if 0 < len <= block.len() {
        scan(record(vars, block.subrange(0, len)), after_entry(block, len))
    } else {
        vars
    }
}

/// The variables that an environment block sets.
pub open spec fn block_vars(block: Seq<u8>) -> Map<Seq<char>, Seq<char>> {
    scan(Map::empty(), block)
}

/// Every key that an entry sets is at least one character long.
pub proof fn lemma_entry_key_not_empty(entry: Seq<u8>)
    ensures
        entry_pair(entry) matches Some(pair) ==> pair.0.len() > 0,
{
    if entry_pair(entry) is Some {
        let eq = position(entry, EQUALS);
        lemma_position(entry, EQUALS);
        is_char_boundary_iff_not_is_continuation_byte(entry, eq);
        valid_utf8_split(entry, eq);
    }
}

/// Reading a block adds no empty key.
pub proof fn lemma_scan_keys_not_empty(vars: Map<Seq<char>, Seq<char>>, block: Seq<u8>)
    requires
        forall|key: Seq<char>| #[trigger] vars.contains_key(key) ==> key.len() > 0,
    ensures
        forall|key: Seq<char>| #[trigger] scan(vars, block).contains_key(key) ==> key.len() > 0,
    decreases block.len(),
{
    let len = position(block, NUL);
    if 0 < len <= block.len() {
        let entry = block.subrange(0, len);
        let next = record(vars, entry);
        lemma_entry_key_not_empty(entry);
        assert forall|key: Seq<char>| #[trigger] next.contains_key(key) implies key.len() > 0 by {
            if !vars.contains_key(key) {
                assert(entry_pair(entry) matches Some(pair) && key == pair.0);
            }
        }
        lemma_scan_keys_not_empty(next, after_entry(block, len));
        assert(scan(vars, block) == scan(next, after_entry(block, len)));
    }
}

/// Whatever the block holds, no variable it sets has an empty key.
pub proof fn law_block_keys_are_not_empty(block: Seq<u8>)
    ensures
        forall|key: Seq<char>| #[trigger] block_vars(block).contains_key(key) ==> key.len() > 0,
{
    lemma_scan_keys_not_empty(Map::empty(), block);
}

/// The map that a list of variables stands for: each sets its key, in order.
pub open spec fn map_of(pairs: Seq<Pair>) -> Map<Seq<char>, Seq<char>>
    decreases pairs.len(),
{
    if pairs.len() == 0 {
        Map::empty()
    } else {
        map_of(pairs.drop_last()).insert(pairs.last().0, pairs.last().1)
    }
}

/// Whether no key comes twice.
pub open spec fn distinct_keys(pairs: Seq<Pair>) -> bool {
    forall|i: int, j: int| 0 <= i < j < pairs.len() ==> (#[trigger] pairs[i]).0 != (#[trigger] pairs[j]).0
}

/// The keys of `map_of` are the keys of the list.
pub proof fn lemma_map_of_keys(pairs: Seq<Pair>, key: Seq<char>)
    ensures
        map_of(pairs).dom().contains(key) <==> exists|i: int|
            0 <= i < pairs.len() && (#[trigger] pairs[i]).0 == key,
    decreases pairs.len(),
{
    if pairs.len() > 0 {
        let earlier = pairs.drop_last();
        lemma_map_of_keys(earlier, key);
        if map_of(pairs).dom().contains(key) {
            if pairs.last().0 == key {
                assert(pairs[pairs.len() - 1].0 == key);
            } else {
                let i = choose|i: int| 0 <= i < earlier.len() && (#[trigger] earlier[i]).0 == key;
                assert(pairs[i].0 == key);
            }
        }
        if exists|i: int| 0 <= i < pairs.len() && (#[trigger] pairs[i]).0 == key {
            let i = choose|i: int| 0 <= i < pairs.len() && (#[trigger] pairs[i]).0 == key;
            if i < earlier.len() {
                assert(earlier[i].0 == key);
            }
        }
    }
}

/// Replacing the value of a key that the list holds once is `insert` on the
/// map.
pub proof fn lemma_map_of_update(pairs: Seq<Pair>, i: int, value: Seq<char>)
    requires
        0 <= i < pairs.len(),
        distinct_keys(pairs),
    ensures
        map_of(pairs.update(i, (pairs[i].0, value))) == map_of(pairs).insert(pairs[i].0, value),
    decreases pairs.len(),
{
    let key = pairs[i].0;
    let updated = pairs.update(i, (key, value));
    let earlier = pairs.drop_last();
    if i == pairs.len() - 1 {
        assert(updated.drop_last() =~= earlier);
        assert(map_of(updated) =~= map_of(pairs).insert(key, value));
    } else {
        assert(updated.drop_last() =~= earlier.update(i, (earlier[i].0, value)));
        assert(distinct_keys(earlier)) by {
            assert forall|a: int, b: int| 0 <= a < b < earlier.len() implies (#[trigger] earlier[a]).0
                != (#[trigger] earlier[b]).0 by {
                assert(pairs[a].0 != pairs[b].0);
            }
        }
        lemma_map_of_update(earlier, i, value);
        assert(pairs[i].0 != pairs[pairs.len() - 1].0);
        assert(map_of(updated) =~= map_of(pairs).insert(key, value));
    }
}

/// Environment overrides: variables with pairwise distinct keys, held in the
/// order in which their keys were first set, so that walking them is the same
/// on every run.
#[derive(Clone, Debug)]
pub struct Environment {
    pub vars: Vec<(String, String)>,
}

impl View for Environment {
    type V = Map<Seq<char>, Seq<char>>;

    open spec fn view(&self) -> Map<Seq<char>, Seq<char>> {
        map_of(self.pairs())
    }
}

impl Environment {
    /// The variables as plain text, in the order they are held.
    pub open spec fn pairs(&self) -> Seq<Pair> {
        Seq::new(self.vars@.len(), |i: int| (self.vars@[i].0@, self.vars@[i].1@))
    }

    /// No key is held twice.
    pub open spec fn wf(&self) -> bool {
        distinct_keys(self.pairs())
    }

    /// No overrides.
    pub fn new() -> (env: Environment)
        ensures
            env.wf(),
            env@ == Map::<Seq<char>, Seq<char>>::empty(),
            env.vars@.len() == 0,
    {
        Environment { vars: Vec::new() }
    }

    /// Number of variables.
    pub fn len(&self) -> (n: usize)
        requires
            self.wf(),
        ensures
            n == self@.dom().len(),
            n == self.vars@.len(),
    {
        proof {
            lemma_distinct_len(self.pairs());
        }
        self.vars.len()
    }

    /// Whether there is no variable.
    pub fn is_empty(&self) -> (empty: bool)
        ensures
            empty == (self@ == Map::<Seq<char>, Seq<char>>::empty()),
            empty == (self.vars@.len() == 0),
    {
        proof {
            if self.vars@.len() > 0 {
                let last = self.pairs().last();
                assert(self@.dom().contains(last.0));
            }
        }
        self.vars.len() == 0
    }

    /// The value of `key`, if it is set.
    pub fn get(&self, key: &str) -> (value: Option<&String>)
        ensures
            match value {
                Some(v) => self@.dom().contains(key@) && self@[key@] == v@,
                None => !self@.dom().contains(key@),
            },
    {
        let wanted = key.to_owned();
        let mut found: Option<&String> = None;
        let mut i: usize = 0;
        while i < self.vars.len()
            invariant
                i <= self.vars@.len(),
                wanted@ == key@,
                match found {
                    Some(v) => map_of(self.pairs().take(i as int)).dom().contains(key@) && map_of(
                        self.pairs().take(i as int),
                    )[key@] == v@,
                    None => !map_of(self.pairs().take(i as int)).dom().contains(key@),
                },
            decreases self.vars@.len() - i,
        {
            proof {
                let next = self.pairs().take(i as int + 1);
                assert(next.drop_last() =~= self.pairs().take(i as int));
                assert(next.last() == self.pairs()[i as int]);
            }
            if self.vars[i].0 == wanted {
                found = Some(&self.vars[i].1);
            }
            i += 1;
        }
        proof {
            assert(self.pairs().take(i as int) =~= self.pairs());
        }
        found
    }

    /// Sets `key` to `value`, in place of the value it had, if any.
    pub fn insert(&mut self, key: String, value: String)
        requires
            old(self).wf(),
        ensures
            final(self).wf(),
            final(self)@ == old(self)@.insert(key@, value@),
    {
        let mut i: usize = 0;
        while i < self.vars.len()
            invariant
                i <= self.vars@.len(),
                *self == *old(self),
                self.wf(),
                forall|j: int| 0 <= j < i ==> (#[trigger] self.pairs()[j]).0 != key@,
            decreases self.vars@.len() - i,
        {
            if self.vars[i].0 == key {
                proof {
                    lemma_map_of_update(self.pairs(), i as int, value@);
                }
                let ghost before = self.pairs();
                self.vars.set(i, (key, value));
                proof {
                    let after = before.update(i as int, (before[i as int].0, value@));
                    assert(self.pairs() =~= after);
                    assert forall|a: int, b: int| 0 <= a < b < after.len() implies (
                    #[trigger] after[a]).0 != (#[trigger] after[b]).0 by {
                        assert(before[a].0 != before[b].0);
                    }
                }
                return ;
            }
            i += 1;
        }
        let ghost before = self.pairs();
        self.vars.push((key, value));
        proof {
            let after = before.push((key@, value@));
            assert(self.pairs() =~= after);
            assert(after.drop_last() =~= before);
            assert forall|a: int, b: int| 0 <= a < b < after.len() implies (#[trigger] after[a]).0
                != (#[trigger] after[b]).0 by {
                if b < before.len() {
                    assert(before[a].0 != before[b].0);
                } else {
                    assert(before[a].0 != key@);
                }
            }
        }
    }

    /// Reads an environment block.
    pub fn parse_block(block: &[u8]) -> (env: Environment)
        ensures
            env.wf(),
            env@ == block_vars(block@),
    {
        let mut env = Environment::new();
        let mut at: usize = 0;
        proof {
            assert(block@.subrange(0, block@.len() as int) =~= block@);
        }
        loop
            invariant
                at <= block@.len(),
                env.wf(),
                block_vars(block@) == scan(env@, block@.subrange(at as int, block@.len() as int)),
            decreases block@.len() - at,
        {
            let ghost rest = block@.subrange(at as int, block@.len() as int);
            let end = find(block, at, NUL);
            proof {
                lemma_position(rest, NUL);
            }
            if end == at {
                return env;
            }
            let entry = slice_subrange(block, at, end);
            let ghost len = end - at;
            proof {
                assert(entry@ =~= rest.subrange(0, len));
            }
            match parse_entry(entry) {
                Some((key, value)) => env.insert(key, value),
                None => {},
            }
            let next = if end < block.len() {
                end + 1
            } else {
                end
            };
            proof {
                assert(after_entry(rest, len) =~= block@.subrange(next as int, block@.len() as int));
            }
            at = next;
        }
    }
}

/// A list with distinct keys has as many keys as entries.
pub proof fn lemma_distinct_len(pairs: Seq<Pair>)
    requires
        distinct_keys(pairs),
    ensures
        map_of(pairs).dom().finite(),
        map_of(pairs).dom().len() == pairs.len(),
    decreases pairs.len(),
{
    if pairs.len() > 0 {
        let earlier = pairs.drop_last();
        assert(distinct_keys(earlier)) by {
            assert forall|a: int, b: int| 0 <= a < b < earlier.len() implies (#[trigger] earlier[a]).0
                != (#[trigger] earlier[b]).0 by {
                assert(pairs[a].0 != pairs[b].0);
            }
        }
        lemma_distinct_len(earlier);
        lemma_map_of_keys(earlier, pairs.last().0);
        if exists|i: int| 0 <= i < earlier.len() && (#[trigger] earlier[i]).0 == pairs.last().0 {
            let i = choose|i: int| 0 <= i < earlier.len() && (#[trigger] earlier[i]).0 == pairs.last().0;
            assert(pairs[i].0 != pairs[pairs.len() - 1].0);
        }
    }
}

/// Finds the first `byte` at or after `from`; the length where there is none.
pub fn find(s: &[u8], from: usize, byte: u8) -> (at: usize)
    requires
        from <= s@.len(),
    ensures
        from <= at <= s@.len(),
        at == from + position(s@.subrange(from as int, s@.len() as int), byte),
{
    let ghost tail = s@.subrange(from as int, s@.len() as int);
    let mut at: usize = from;
    while at < s.len() && s[at] != byte
        invariant
            from <= at <= s@.len(),
            tail == s@.subrange(from as int, s@.len() as int),
            forall|j: int| 0 <= j < at - from ==> tail[j] != byte,
        decreases s@.len() - at,
    {
        at += 1;
    }
    proof {
        lemma_position_unique(tail, byte, at - from);
    }
    at
}

/// Reads one entry of an environment block.
pub fn parse_entry(entry: &[u8]) -> (pair: Option<(String, String)>)
    ensures
        match pair {
            Some((key, value)) => entry_pair(entry@) == Some((key@, value@)),
            None => entry_pair(entry@) is None,
        },
{
    let text = match core::str::from_utf8(entry) {
        Ok(text) => text,
        Err(_) => {
            return None;
        },
    };
    let eq = find(entry, 0, EQUALS);
    proof {
        assert(entry@.subrange(0, entry@.len() as int) =~= entry@);
    }
    if eq == 0 || eq == entry.len() {
        return None;
    }
    proof {
        lemma_position(entry@, EQUALS);
        is_char_boundary_iff_not_is_continuation_byte(entry@, eq as int);
    }
    let (key, tail) = text.split_at(eq);
    proof {
        encode_utf8_valid_utf8(tail@);
        assert(tail.spec_bytes()[0] == EQUALS);
        assert(is_leading_byte_width_1(tail.spec_bytes()[0]));
        reveal_with_fuel(is_char_boundary, 2);
        assert(is_char_boundary(tail.spec_bytes(), 1));
    }
    let (_, value) = tail.split_at(1);
    proof {
        encode_utf8_decode_utf8(key@);
        encode_utf8_decode_utf8(value@);
        assert(value.spec_bytes() =~= entry@.subrange(eq + 1, entry@.len() as int));
    }
    Some((key.to_owned(), value.to_owned()))
}

} // verus!
