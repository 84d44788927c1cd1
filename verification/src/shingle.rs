//! Shingle extraction: the set of n-gram hashes of a text.
//!
//! A shingle is a window of consecutive characters (Unicode scalar values)
//! of the text, reduced to 64 bits by an FNV-1a fold over its code points.
//! Equal windows hash alike wherever they stand, in any text.

use crate::error::SignatureError;
use std::collections::HashSet;
use vstd::prelude::*;
use vstd::std_specs::hash::group_hash_axioms;

verus! {

/// The starting value of the n-gram hash (the 64-bit FNV offset basis).
pub const HASH_BASIS: u64 = 0xcbf2_9ce4_8422_2325;

/// The multiplier of the n-gram hash (the 64-bit FNV prime).
pub const HASH_FACTOR: u64 = 0x0000_0100_0000_01b3;

/// One step of the n-gram hash: mixes the code point of `c` into `acc`.
pub open spec fn hash_step(acc: u64, c: char) -> u64 {
    (acc ^ (c as u64)).wrapping_mul(HASH_FACTOR)
}

/// The hash of an n-gram: its code points folded from left to right,
/// starting from `HASH_BASIS`.
pub open spec fn shingle_hash(gram: Seq<char>) -> u64
    decreases gram.len(),
{
    if gram.len() == 0 {
        HASH_BASIS
    } else {
        hash_step(shingle_hash(gram.drop_last()), gram.last())
    }
}

/// The characters of a text, in order.
pub fn chars_of(text: &str) -> (chars: Vec<char>)
    ensures
        chars@ == text@,
{
    let mut chars: Vec<char> = Vec::new();
    for c in it: text.chars()
        invariant
            it.seq() == text@,
            chars@ == text@.take(it.index()),
    {
        chars.push(c);
    }
    chars
}

/// Hashes the n-gram `chars[start .. end]`.
pub fn hash_gram(chars: &Vec<char>, start: usize, end: usize) -> (h: u64)
    requires
        start <= end <= chars@.len(),
    ensures
        h == shingle_hash(chars@.subrange(start as int, end as int)),
{
    let mut acc: u64 = HASH_BASIS;
    let mut i: usize = start;
    while i < end
        invariant
            start <= i <= end <= chars@.len(),
            acc == shingle_hash(chars@.subrange(start as int, i as int)),
        decreases end - i,
    {
        let c: char = chars[i];
        proof {
            let grown = chars@.subrange(start as int, i + 1);
            assert(grown.drop_last() =~= chars@.subrange(start as int, i as int));
            assert(grown.last() == c);
        }
        acc = (acc ^ (c as u64)).wrapping_mul(HASH_FACTOR);
        i = i + 1;
    }
    acc
}

/// The hashes of the windows of `text`, from left to right. A text shorter
/// than the width is one window; an empty text has none.
pub open spec fn window_hashes(text: Seq<char>, width: nat) -> Seq<u64> {
    if text.len() == 0 {
        Seq::empty()
    } else if text.len() < width {
        seq![shingle_hash(text)]
    } else {
        Seq::new(
            (text.len() - width + 1) as nat,
            |i: int| shingle_hash(text.subrange(i, i + width)),
        )
    }
}

/// The shingle set of `text`: its window hashes with duplicates collapsed.
pub open spec fn shingles_of(text: Seq<char>, width: nat) -> Set<u64> {
    window_hashes(text, width).to_set()
}

/// The distinct n-gram hashes of one text.
pub struct ShingleSet {
    items: Vec<u64>,
}

impl View for ShingleSet {
    type V = Set<u64>;

    closed spec fn view(&self) -> Set<u64> {
        self.items@.to_set()
    }
}

impl ShingleSet {
    #[verifier::type_invariant]
    spec fn distinct(&self) -> bool {
        self.items@.no_duplicates()
    }

    /// The set of the given hashes.
    pub fn from_hashes(hashes: &[u64]) -> (set: ShingleSet)
        ensures
            set@ == hashes@.to_set(),
    {
        broadcast use group_hash_axioms;

        let mut seen: HashSet<u64> = HashSet::new();
        let mut items: Vec<u64> = Vec::new();
        let mut i: usize = 0;
        while i < hashes.len()
            invariant
                i <= hashes@.len(),
                items@.no_duplicates(),
                seen@ == items@.to_set(),
                items@.to_set() == hashes@.take(i as int).to_set(),
            decreases hashes@.len() - i,
        {
            let h: u64 = hashes[i];
            proof {
                lemma_to_set_take_next(hashes@, i as int);
            }
            if seen.insert(h) {
                proof {
                    lemma_to_set_push(items@, h);
                }
                items.push(h);
            } else {
                assert(items@.to_set().insert(h) =~= items@.to_set());
            }
            i = i + 1;
        }
        assert(hashes@.take(i as int) =~= hashes@);
        ShingleSet { items }
    }

    /// The shingles of `text` for windows of `width` characters. A width of
    /// zero is refused; an empty text gives the empty set.
    pub fn extract(text: &str, width: u64) -> (result: Result<ShingleSet, SignatureError>)
        ensures
            result is Err <==> width == 0,
            result matches Err(e) ==> e == SignatureError::InvalidParameter,
            result matches Ok(set) ==> set@ == shingles_of(text@, width as nat),
            result matches Ok(set) ==> (set@.is_empty() <==> text@.len() == 0),
    {
        if width == 0 {
            return Err(SignatureError::InvalidParameter);
        }
        proof {
            lemma_shingles_empty(text@, width as nat);
        }
        let chars = chars_of(text);
        let n: usize = chars.len();
        let mut grams: Vec<u64> = Vec::new();
        if n == 0 {
        } else if (n as u64) < width {
            let h = hash_gram(&chars, 0, n);
            assert(chars@.subrange(0, n as int) =~= text@);
            grams.push(h);
            assert(grams@ =~= window_hashes(text@, width as nat));
        } else {
            let w: usize = width as usize;
            let last: usize = n - w;
            let mut start: usize = 0;
            while start <= last
                invariant
                    chars@ == text@,
                    n == chars@.len(),
                    w == width,
                    1 <= w <= n,
                    last == n - w,
                    start <= last + 1,
                    grams@.len() == start,
                    forall|j: int|
                        0 <= j < start ==> grams@[j] == shingle_hash(
                            #[trigger] text@.subrange(j, j + w),
                        ),
                decreases last + 1 - start,
            {
                let h = hash_gram(&chars, start, start + w);
                grams.push(h);
                start = start + 1;
            }
            assert(grams@ =~= window_hashes(text@, width as nat));
        }
        Ok(ShingleSet::from_hashes(grams.as_slice()))
    }

    /// The number of distinct shingles.
    pub fn len(&self) -> (n: usize)
        ensures
            n == self@.len(),
            self@.finite(),
    {
        proof {
            use_type_invariant(self);
            self.items@.unique_seq_to_set();
        }
        self.items.len()
    }

    /// Whether the text had no shingle at all.
    pub fn is_empty(&self) -> (empty: bool)
        ensures
            empty <==> self@ == Set::<u64>::empty(),
    {
        proof {
            if self.items@.len() > 0 {
                assert(self.items@.to_set().contains(self.items@[0]));
            } else {
                assert(self.items@.to_set() =~= Set::<u64>::empty());
            }
        }
        self.items.len() == 0
    }

    /// Whether `hash` is the hash of some shingle of the text.
    pub fn contains(&self, hash: u64) -> (found: bool)
        ensures
            found == self@.contains(hash),
    {
        let mut i: usize = 0;
        while i < self.items.len()
            invariant
                i <= self.items@.len(),
                forall|j: int| 0 <= j < i ==> self.items@[j] != hash,
            decreases self.items@.len() - i,
        {
            if self.items[i] == hash {
                assert(self.items@.contains(hash));
                return true;
            }
            i = i + 1;
        }
        false
    }

    /// The shingles, each once, in no meaningful order.
    pub fn as_slice(&self) -> (hashes: &[u64])
        ensures
            hashes@.to_set() == self@,
            hashes@.no_duplicates(),
    {
        proof {
            use_type_invariant(self);
        }
        self.items.as_slice()
    }
}

/// Only the empty text is without shingles: a text shorter than the width
/// still gives one.
pub proof fn lemma_shingles_empty(text: Seq<char>, width: nat)
    requires
        width >= 1,
    ensures
        shingles_of(text, width).is_empty() <==> text.len() == 0,
{
    let hashes = window_hashes(text, width);
    if text.len() == 0 {
        assert(hashes.to_set() =~= Set::<u64>::empty());
    } else {
        assert(hashes.len() > 0);
        assert(hashes.to_set().contains(hashes[0]));
    }
}

/// The set of a prefix grows by the next item.
proof fn lemma_to_set_take_next(s: Seq<u64>, i: int)
    requires
        0 <= i < s.len(),
    ensures
        s.take(i + 1).to_set() == s.take(i).to_set().insert(s[i]),
{
    let grown = s.take(i + 1);
    let short = s.take(i);
    assert forall|x: u64| grown.to_set().contains(x) <==> short.to_set().insert(s[i]).contains(
        x,
    ) by {
        if grown.contains(x) {
            let j = choose|j: int| 0 <= j < grown.len() && grown[j] == x;
            if j < i {
                assert(short[j] == x);
            }
        }
        if short.contains(x) {
            let j = choose|j: int| 0 <= j < short.len() && short[j] == x;
            assert(grown[j] == x);
        }
        assert(grown[i] == s[i]);
    }
    assert(grown.to_set() =~= short.to_set().insert(s[i]));
}

/// Pushing a new item keeps a sequence free of duplicates and adds it to
/// the set.
proof fn lemma_to_set_push(s: Seq<u64>, x: u64)
    ensures
        s.push(x).to_set() == s.to_set().insert(x),
        s.no_duplicates() && !s.to_set().contains(x) ==> s.push(x).no_duplicates(),
{
    let grown = s.push(x);
    assert forall|y: u64| grown.to_set().contains(y) <==> s.to_set().insert(x).contains(y) by {
        if grown.contains(y) {
            let j = choose|j: int| 0 <= j < grown.len() && grown[j] == y;
            if j < s.len() {
                assert(s[j] == y);
            }
        }
        if s.contains(y) {
            let j = choose|j: int| 0 <= j < s.len() && s[j] == y;
            assert(grown[j] == y);
        }
        assert(grown[s.len() as int] == x);
    }
    assert(grown.to_set() =~= s.to_set().insert(x));
    if s.no_duplicates() && !s.to_set().contains(x) {
        assert forall|a: int, b: int|
            0 <= a < grown.len() && 0 <= b < grown.len() && a != b implies grown[a] != grown[b] by {
            if a < s.len() && b < s.len() {
            } else if a < s.len() {
                assert(s.contains(s[a]));
            } else {
                assert(s.contains(s[b]));
            }
        }
    }
}

} // verus!
