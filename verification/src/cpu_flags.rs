//! CPU feature flags: the flat numbering of a tree of named flags, and the
//! per-flag cache of detection results (one status bit and one value bit per
//! flag, 64 flags to a word).

use vstd::prelude::*;
use vstd::string::*;

verus! {

/// A flag, or a named group of flags.
#[derive(Debug)]
pub enum FlagTree {
    Leaf(String),
    Node(String, Vec<FlagTree>),
}

/// Full names of the flags of `t`, in order: a flag's name is the names of
/// its enclosing groups, each followed by `_`, then its own name.
pub open spec fn leaves_of(t: FlagTree, prefix: Seq<char>) -> Seq<Seq<char>>
    decreases t,
{
    match t {
        FlagTree::Leaf(name) => seq![prefix + name@],
        FlagTree::Node(name, kids) => leaves_of_all(kids@, prefix + name@ + seq!['_']),
    }
}

/// Full names of the flags of the trees `ts`, in order.
pub open spec fn leaves_of_all(ts: Seq<FlagTree>, prefix: Seq<char>) -> Seq<Seq<char>>
    decreases ts,
{
    if ts.len() == 0 {
        seq![]
    } else {
        leaves_of_all(ts.subrange(0, ts.len() - 1), prefix) + leaves_of(ts[ts.len() - 1], prefix)
    }
}

/// Names of numbered flags.
pub open spec fn flag_names(flat: Seq<(u32, String)>) -> Seq<Seq<char>> {
    flat.map_values(|p: (u32, String)| p.1@)
}

/// Each flag is numbered by its position.
pub open spec fn numbered_in_order(flat: Seq<(u32, String)>) -> bool {
    forall|i: int| 0 <= i < flat.len() ==> (#[trigger] flat[i]).0 == i
}

/// Appends the flags of `tree` to `flat`, numbering on from its length.
pub fn expand_tree(tree: &FlagTree, prefix: &String, flat: &mut Vec<(u32, String)>)
    requires
        numbered_in_order(old(flat)@),
        old(flat)@.len() + leaves_of(*tree, prefix@).len() <= u32::MAX,
    ensures
        numbered_in_order(final(flat)@),
        flag_names(final(flat)@) == flag_names(old(flat)@) + leaves_of(*tree, prefix@),
    decreases tree,
{
    match tree {
        FlagTree::Leaf(name) => {
            let id = flat.len() as u32;
            let full = prefix.clone().concat(name.as_str());
            flat.push((id, full));
            assert(flag_names(flat@) =~= flag_names(old(flat)@) + leaves_of(*tree, prefix@));
        },
        FlagTree::Node(name, kids) => {
            let mut new_prefix = prefix.clone().concat(name.as_str());
            new_prefix.append("_");
            proof {
                reveal_strlit("_");
            }
            let ghost p = new_prefix@;
            assert(p == prefix@ + name@ + seq!['_']);
            let mut i: usize = 0;
            while i < kids.len()
                invariant
                    i <= kids@.len(),
                    p == new_prefix@,
                    *tree == FlagTree::Node(*name, *kids),
                    p == prefix@ + name@ + seq!['_'],
                    numbered_in_order(flat@),
                    flag_names(flat@) == flag_names(old(flat)@) + leaves_of_all(kids@.subrange(0, i as int), p),
                    old(flat)@.len() + leaves_of_all(kids@, p).len() <= u32::MAX,
                decreases kids@.len() - i,
            {
                proof {
                    lemma_leaves_prefix_len(kids@, i as int + 1, p);
                    assert(kids@.subrange(0, i + 1).subrange(0, i as int) =~= kids@.subrange(0, i as int));
                    assert(kids@.subrange(0, i + 1)[i as int] == kids@[i as int]);
                    assert(leaves_of_all(kids@.subrange(0, i + 1), p) == leaves_of_all(kids@.subrange(0, i as int), p) + leaves_of(kids@[i as int], p));
                    assert(flag_names(flat@).len() == flat@.len());
                    assert((*tree)->Node_1 == *kids);
                    assert(decreases_to!(*tree => (*tree)->Node_1));
                    assert(decreases_to!(*kids => kids@));
                    assert(decreases_to!(kids@ => kids@[i as int]));
                }
                expand_tree(&kids[i], &new_prefix, flat);
                i += 1;
                proof {
                    assert(flag_names(flat@) =~= flag_names(old(flat)@) + leaves_of_all(kids@.subrange(0, i as int), p));
                }
            }
            assert(kids@.subrange(0, kids@.len() as int) =~= kids@);
        },
    }
}

proof fn lemma_leaves_prefix_len(ts: Seq<FlagTree>, n: int, prefix: Seq<char>)
    requires
        0 <= n <= ts.len(),
    ensures
        leaves_of_all(ts.subrange(0, n), prefix).len() <= leaves_of_all(ts, prefix).len(),
    decreases ts.len() - n,
{
    if n < ts.len() {
        lemma_leaves_prefix_len(ts, n + 1, prefix);
        assert(ts.subrange(0, n + 1).subrange(0, n) =~= ts.subrange(0, n));
    } else {
        assert(ts.subrange(0, n) =~= ts);
    }
}

/// Numbers the flags of `trees` from 0, in order, with their full names.
pub fn define_cpu_flags(trees: &Vec<FlagTree>) -> (flat: Vec<(u32, String)>)
    requires
        leaves_of_all(trees@, seq![]).len() <= u32::MAX,
    ensures
        numbered_in_order(flat@),
        flag_names(flat@) == leaves_of_all(trees@, seq![]),
{
    let mut flat: Vec<(u32, String)> = Vec::new();
    let empty = String::new();
    let mut i: usize = 0;
    while i < trees.len()
        invariant
            i <= trees@.len(),
            empty@ == Seq::<char>::empty(),
            numbered_in_order(flat@),
            flag_names(flat@) == leaves_of_all(trees@.subrange(0, i as int), seq![]),
            leaves_of_all(trees@, seq![]).len() <= u32::MAX,
        decreases trees@.len() - i,
    {
        proof {
            lemma_leaves_prefix_len(trees@, i as int + 1, seq![]);
            assert(trees@.subrange(0, i + 1).subrange(0, i as int) =~= trees@.subrange(0, i as int));
        }
        expand_tree(&trees[i], &empty, &mut flat);
        i += 1;
        assert(flag_names(flat@) =~= leaves_of_all(trees@.subrange(0, i as int), seq![]));
    }
    assert(trees@.subrange(0, trees@.len() as int) =~= trees@);
    flat
}

/// Words needed for `count` flags, one bit each.
pub fn cache_words(count: usize) -> (r: usize)
    requires
        count + 63 <= usize::MAX,
    ensures
        r == (count + 63) / 64,
        r * 64 >= count,
{
    (count + 63) / 64
}

/// Bit `b` of `x` is set.
pub open spec fn bit_set(x: u64, b: u64) -> bool {
    (x >> b) & 1 == 1
}

proof fn lemma_other_bits(s: u64, v: u64, bit: u64, mask: u64, result: bool, b2: u64)
    requires
        bit < 64,
        b2 < 64,
        b2 != bit,
        mask == 1u64 << bit,
    ensures
        bit_set(s | mask, b2) == bit_set(s, b2),
        bit_set(if result { v | mask } else { v & !mask }, b2) == bit_set(v, b2),
{
    let nv = if result { v | mask } else { v & !mask };
    assert(bit_set(s | mask, b2) == bit_set(s, b2) && bit_set(nv, b2) == bit_set(v, b2)) by (bit_vector)
        requires
            bit < 64,
            b2 < 64,
            b2 != bit,
            mask == 1u64 << bit,
            nv == if result { v | mask } else { v & !mask },
    ;
}

/// Detection results remembered for each flag: whether the flag was checked
/// and, if so, whether the processor has it.
pub struct CpuFlagCache {
    status: Vec<u64>,
    values: Vec<u64>,
}

impl CpuFlagCache {
    /// Number of flags the cache has room for.
    pub closed spec fn capacity(&self) -> nat {
        self.status@.len() * 64
    }

    /// Both bit arrays have the same length.
    pub closed spec fn wf(&self) -> bool {
        self.status@.len() == self.values@.len()
    }

    /// Remembered result for flag `id`, if it was checked.
    pub closed spec fn cached(&self, id: nat) -> Option<bool> {
        let w = (id / 64) as int;
        let b = (id % 64) as u64;
        if bit_set(self.status@[w], b) {
            Some(bit_set(self.values@[w], b))
        } else {
            None
        }
    }

    /// A cache for `words * 64` flags with nothing checked yet.
    pub fn new(words: usize) -> (r: CpuFlagCache)
        ensures
            r.wf(),
            r.capacity() == words * 64,
            forall|id: nat| id < r.capacity() ==> #[trigger] r.cached(id) is None,
    {
        let mut status: Vec<u64> = Vec::new();
        let mut values: Vec<u64> = Vec::new();
        let mut i: usize = 0;
        while i < words
            invariant
                i <= words,
                status@.len() == i,
                values@.len() == i,
                forall|k: int| 0 <= k < i ==> status@[k] == 0 && values@[k] == 0,
            decreases words - i,
        {
            status.push(0);
            values.push(0);
            i += 1;
        }
        let r = CpuFlagCache { status, values };
        assert forall|id: nat| id < r.capacity() implies #[trigger] r.cached(id) is None by {
            let b = (id % 64) as u64;
            assert(r.status@[(id / 64) as int] == 0);
            assert((0u64 >> b) & 1 == 0) by (bit_vector);
        }
        r
    }

    /// The remembered result for flag `id`, if it was checked.
    pub fn lookup(&self, id: u32) -> (r: Option<bool>)
        requires
            self.wf(),
            id < self.capacity(),
        ensures
            r == self.cached(id as nat),
    {
        let index = (id / 64) as usize;
        let bit = (id % 64) as u64;
        let mask = 1u64 << bit;
        let loaded = self.status[index];
        assert((loaded & mask != 0) == bit_set(loaded, bit)) by (bit_vector)
            requires
                bit < 64,
                mask == 1u64 << bit,
        ;
        if (loaded & mask) != 0 {
            let vals = self.values[index];
            assert((vals & mask != 0) == bit_set(vals, bit)) by (bit_vector)
                requires
                    bit < 64,
                    mask == 1u64 << bit,
            ;
            return Some((vals & mask) != 0);
        }
        None
    }

    /// Whether the processor has flag `id`: the remembered result, or else
    /// the result of `detect`, which is then remembered.
    pub fn has<F: Fn() -> bool>(&mut self, id: u32, detect: F) -> (r: bool)
        requires
            old(self).wf(),
            id < old(self).capacity(),
            call_requires(detect, ()),
        ensures
            final(self).wf(),
            final(self).capacity() == old(self).capacity(),
            final(self).cached(id as nat) == Some(r),
            old(self).cached(id as nat) matches Some(v) ==> r == v && *final(self) == *old(self),
            old(self).cached(id as nat) is None ==> call_ensures(detect, (), r),
            forall|other: nat|
                other != id && other < old(self).capacity() ==> #[trigger] final(self).cached(other) == old(self).cached(other),
    {
        match self.lookup(id) {
            Some(v) => v,
            None => {
                let result = detect();
                self.record(id, result);
                result
            },
        }
    }

    /// Remembers `result` for flag `id`; the other flags keep what they had.
    pub fn record(&mut self, id: u32, result: bool)
        requires
            old(self).wf(),
            id < old(self).capacity(),
        ensures
            final(self).wf(),
            final(self).capacity() == old(self).capacity(),
            final(self).cached(id as nat) == Some(result),
            forall|other: nat|
                other != id && other < old(self).capacity() ==> #[trigger] final(self).cached(other) == old(self).cached(other),
    {
        let index = (id / 64) as usize;
        let bit = (id % 64) as u64;
        let mask = 1u64 << bit;
        let v = self.values[index];
        let s = self.status[index];
        let nv = if result { v | mask } else { v & !mask };
        let ns = s | mask;
        assert(bit_set(ns, bit) && bit_set(nv, bit) == result) by (bit_vector)
            requires
                bit < 64,
                mask == 1u64 << bit,
                nv == if result { v | mask } else { v & !mask },
                ns == s | mask,
        ;
        self.values.set(index, nv);
        self.status.set(index, ns);
        assert forall|other: nat| other != id && other < old(self).capacity() implies #[trigger] self.cached(other) == old(self).cached(other) by {
            if other / 64 == id as nat / 64 {
                let b2 = (other % 64) as u64;
                assert(b2 != bit);
                lemma_other_bits(s, v, bit, mask, result, b2);
            }
        }
    }
}

} // verus!
