//! What is known of the top of the stack: which variables lie there, and where.

use vstd::prelude::*;
use crate::ordered_map::{
    distinct_keys, has_key, key_index, lemma_inserted, lemma_key_index_unique, lemma_swap_removed,
    lemma_to_map, to_map,
};
use crate::program::{PushValue, VarId};

verus! {

/// Mathematical view of a [`KnownStack`]: the cell index of each variable known
/// to lie on the stack, and the index of the first free cell.
pub struct KnownStackView {
    pub positions: Map<VarId, u64>,
    pub offset: u64,
}

impl KnownStackView {
    /// Every known variable lies below the first free cell.
    pub open spec fn wf(self) -> bool {
        forall|var: VarId|
            (#[trigger] self.positions.contains_key(var)) ==> self.positions[var] < self.offset
    }

    /// The stack of which nothing is known.
    pub open spec fn empty() -> KnownStackView {
        KnownStackView { positions: Map::empty(), offset: 0 }
    }

    /// Whether `var` is known to lie on the stack.
    pub open spec fn contains(self, var: VarId) -> bool {
        self.positions.contains_key(var)
    }

    /// How far below the first free cell `var` lies: 1 for the top of the stack.
    pub open spec fn depth(self, var: VarId) -> int {
        self.offset - self.positions[var]
    }

    /// The stack after `var` is forgotten.
    pub open spec fn remove_variable(self, var: VarId) -> KnownStackView {
        KnownStackView { positions: self.positions.remove(var), offset: self.offset }
    }

    /// The stack after `var` is written to the first free cell. A stack whose
    /// cell index cannot grow is forgotten first.
    pub open spec fn push(self, var: VarId) -> KnownStackView {
        let base = if self.offset == u64::MAX {
            Self::empty()
        } else {
            self
        };
        KnownStackView {
            positions: base.positions.insert(var, base.offset),
            offset: (base.offset + 1) as u64,
        }
    }

    /// The stack after `dst` becomes another name of `src`: where `src` lies on
    /// the stack, `dst` lies in the same cell.
    pub open spec fn clone_if_on_stack(self, src: VarId, dst: VarId) -> KnownStackView {
        if self.contains(src) {
            KnownStackView {
                positions: self.positions.insert(dst, self.positions[src]),
                offset: self.offset,
            }
        } else {
            self
        }
    }

    /// The first `k` of `values` are the top `k` cells of the stack, in order
    /// and ending at the top.
    pub open spec fn is_top_prefix(self, values: Seq<PushValue>, k: int) -> bool {
        &&& 0 <= k <= values.len()
        &&& forall|i: int|
            0 <= i < k ==> self.contains((#[trigger] values[i]).var) && self.depth(values[i].var)
                == k - i
    }

    /// The length of the longest prefix of `values` that is the top of the stack.
    pub open spec fn on_stack_prefix_size(self, values: Seq<PushValue>) -> int {
        if values.len() > 0 && self.contains(values[0].var) && self.is_top_prefix(
            values,
            self.depth(values[0].var),
        ) {
            self.depth(values[0].var)
        } else {
            0
        }
    }

    /// `var` lies on both stacks, at the same depth.
    pub open spec fn agrees_on(self, other: KnownStackView, var: VarId) -> bool {
        &&& self.contains(var)
        &&& other.contains(var)
        &&& self.depth(var) == other.depth(var)
    }

    /// Some variable lies at depth `d` on both stacks.
    pub open spec fn common_at(self, other: KnownStackView, d: int) -> bool {
        exists|var: VarId| #[trigger] self.agrees_on(other, var) && self.depth(var) == d
    }

    /// At every depth from the top down to `k` some variable lies on both stacks.
    pub open spec fn common_top(self, other: KnownStackView, k: int) -> bool {
        forall|d: int| 1 <= d <= k ==> #[trigger] self.common_at(other, d)
    }

    /// What is known where control arrives from two places: the variables that
    /// lie at the same depth on both stacks, as far down from the top as the two
    /// stacks agree without a gap. Cell indices are those of `self`.
    pub open spec fn merge_with(self, other: KnownStackView) -> KnownStackView {
        KnownStackView {
            positions: Map::new(
                |var: VarId| self.agrees_on(other, var) && self.common_top(other, self.depth(var)),
                |var: VarId| self.positions[var],
            ),
            offset: self.offset,
        }
    }

    /// The prefix size is a prefix that lies on top of the stack, and no longer
    /// prefix does.
    pub proof fn lemma_on_stack_prefix_size_is_longest(self, values: Seq<PushValue>)
        requires
            self.wf(),
        ensures
            self.is_top_prefix(values, self.on_stack_prefix_size(values)),
            forall|k: int| self.is_top_prefix(values, k) ==> k <= self.on_stack_prefix_size(values),
    {
        assert forall|k: int| self.is_top_prefix(values, k) implies k
            <= self.on_stack_prefix_size(values) by {
            if k > 0 {
                assert(self.contains(values[0].var) && self.depth(values[0].var) == k);
            }
        }
    }
}

/// The variables known to lie on top of the stack.
#[derive(Debug)]
pub struct KnownStack {
    /// The cell index of each known variable; no variable occurs twice.
    variables_on_stack: Vec<(VarId, u64)>,
    /// The index of the first free cell.
    offset: u64,
}

impl View for KnownStack {
    type V = KnownStackView;

    closed spec fn view(&self) -> KnownStackView {
        KnownStackView { positions: to_map(self.variables_on_stack@), offset: self.offset }
    }
}

impl KnownStack {
    /// The representation invariant.
    pub closed spec fn wf(&self) -> bool {
        &&& distinct_keys(self.variables_on_stack@)
        &&& self@.wf()
    }

    /// A stack of which nothing is known.
    pub fn new() -> (r: KnownStack)
        ensures
            r.wf(),
            r@ == KnownStackView::empty(),
    {
        let r = KnownStack { variables_on_stack: Vec::new(), offset: 0 };
        proof {
            lemma_to_map::<VarId, u64>(r.variables_on_stack@, 0, 0);
        }
        r
    }

    /// Forgets everything.
    pub fn clear(&mut self)
        ensures
            final(self).wf(),
            final(self)@ == KnownStackView::empty(),
    {
        self.variables_on_stack.clear();
        self.offset = 0;
        proof {
            lemma_to_map::<VarId, u64>(self.variables_on_stack@, 0, 0);
        }
    }

    /// The place of `var` among the known variables.
    fn find(&self, var: VarId) -> (r: Option<usize>)
        requires
            self.wf(),
        ensures
            match r {
                Some(i) => i < self.variables_on_stack@.len() && self.variables_on_stack@[i as int].0
                    == var && self@.contains(var) && self@.positions[var]
                    == self.variables_on_stack@[i as int].1 && key_index(
                    self.variables_on_stack@,
                    var,
                ) == i,
                None => !self@.contains(var) && !has_key(self.variables_on_stack@, var),
            },
    {
        let mut i: usize = 0;
        while i < self.variables_on_stack.len()
            invariant
                i <= self.variables_on_stack@.len(),
                forall|j: int| 0 <= j < i ==> (#[trigger] self.variables_on_stack@[j]).0 != var,
                self.wf(),
            decreases self.variables_on_stack@.len() - i,
        {
            if self.variables_on_stack[i].0 == var {
                proof {
                    lemma_key_index_unique(self.variables_on_stack@, var, i as int);
                }
                return Some(i);
            }
            i += 1;
        }
        None
    }

    /// The cell index of `var`, if it is known to lie on the stack.
    pub fn get(&self, var: VarId) -> (r: Option<u64>)
        requires
            self.wf(),
        ensures
            r == (if self@.contains(var) {
                Some(self@.positions[var])
            } else {
                None
            }),
    {
        match self.find(var) {
            Some(i) => Some(self.variables_on_stack[i].1),
            None => None,
        }
    }

    /// Records that `var` lies in the cell `index`.
    fn set(&mut self, var: VarId, index: u64)
        requires
            old(self).wf(),
            index < old(self).offset,
        ensures
            final(self).wf(),
            final(self)@.positions == old(self)@.positions.insert(var, index),
            final(self)@.offset == old(self)@.offset,
    {
        proof {
            lemma_inserted(self.variables_on_stack@, var, index);
            lemma_to_map(self.variables_on_stack@, var, index);
        }
        match self.find(var) {
            Some(i) => {
                self.variables_on_stack.set(i, (var, index));
            },
            None => {
                self.variables_on_stack.push((var, index));
            },
        }
    }

    /// Forgets `var`.
    pub fn remove_variable(&mut self, var: VarId)
        requires
            old(self).wf(),
        ensures
            final(self).wf(),
            final(self)@ == old(self)@.remove_variable(var),
    {
        proof {
            lemma_swap_removed(self.variables_on_stack@, var);
            lemma_to_map(self.variables_on_stack@, var, 0);
        }
        match self.find(var) {
            Some(i) => {
                self.variables_on_stack.swap_remove(i);
            },
            None => {
                assert(self@.positions.remove(var) =~= self@.positions);
            },
        }
    }

    /// Records that `var` was written to the top of the stack.
    pub fn push(&mut self, var: VarId)
        requires
            old(self).wf(),
        ensures
            final(self).wf(),
            final(self)@ == old(self)@.push(var),
    {
        if self.offset == u64::MAX {
            self.clear();
        }
        let ghost before = self@;
        let index: u64 = self.offset;
        self.offset = self.offset + 1;
        assert(self@.wf()) by {
            assert forall|other: VarId| #[trigger]
                self@.positions.contains_key(other) implies self@.positions[other]
                < self@.offset by {
                assert(before.positions.contains_key(other));
            }
        }
        self.set(var, index);
    }

    /// Records that `dst` is another name of `src`.
    pub fn clone_if_on_stack(&mut self, src: VarId, dst: VarId)
        requires
            old(self).wf(),
        ensures
            final(self).wf(),
            final(self)@ == old(self)@.clone_if_on_stack(src, dst),
    {
        match self.get(src) {
            Some(index) => {
                self.set(dst, index);
            },
            None => {},
        }
    }

    /// The length of the longest prefix of `push_values` that already lies on
    /// top of the stack, in order and ending at the top.
    pub fn compute_on_stack_prefix_size(&self, push_values: &Vec<PushValue>) -> (r: usize)
        requires
            self.wf(),
        ensures
            r == self@.on_stack_prefix_size(push_values@),
            r <= push_values@.len(),
    {
        if push_values.len() == 0 {
            return 0;
        }
        let first: u64 = match self.get(push_values[0].var) {
            Some(index) => index,
            None => {
                return 0;
            },
        };
        let depth: u64 = self.offset - first;
        if depth > push_values.len() as u64 {
            return 0;
        }
        let size: usize = depth as usize;
        let mut i: usize = 1;
        while i < size
            invariant
                self.wf(),
                1 <= i <= size,
                size == depth,
                size <= push_values@.len(),
                depth == self@.depth(push_values@[0].var),
                self@.contains(push_values@[0].var),
                first == self@.positions[push_values@[0].var],
                forall|j: int|
                    0 <= j < i ==> self@.contains((#[trigger] push_values@[j]).var)
                        && self@.depth(push_values@[j].var) == depth - j,
            decreases size - i,
        {
            match self.get(push_values[i].var) {
                Some(index) => {
                    if index != first + i as u64 {
                        assert(!self@.is_top_prefix(push_values@, depth as int)) by {
                            assert(self@.depth(push_values@[i as int].var) != depth - i);
                        }
                        return 0;
                    }
                },
                None => {
                    assert(!self@.is_top_prefix(push_values@, depth as int)) by {
                        assert(!self@.contains(push_values@[i as int].var));
                    }
                    return 0;
                },
            }
            i += 1;
        }
        size
    }

    /// A copy of the stack.
    pub fn duplicate(&self) -> (r: KnownStack)
        requires
            self.wf(),
        ensures
            r.wf(),
            r@ == self@,
    {
        let mut entries: Vec<(VarId, u64)> = Vec::new();
        let mut i: usize = 0;
        while i < self.variables_on_stack.len()
            invariant
                i <= self.variables_on_stack@.len(),
                entries@ == self.variables_on_stack@.take(i as int),
            decreases self.variables_on_stack@.len() - i,
        {
            entries.push(self.variables_on_stack[i]);
            proof {
                assert(self.variables_on_stack@.take(i + 1) =~= self.variables_on_stack@.take(
                    i as int,
                ).push(self.variables_on_stack@[i as int]));
            }
            i += 1;
        }
        proof {
            assert(self.variables_on_stack@.take(i as int) =~= self.variables_on_stack@);
        }
        KnownStack { variables_on_stack: entries, offset: self.offset }
    }

    /// Whether some entry of `entries` lies `d` cells below `offset`.
    fn has_depth(entries: &Vec<(VarId, u64)>, offset: u64, d: u64) -> (r: bool)
        requires
            forall|j: int| 0 <= j < entries@.len() ==> (#[trigger] entries@[j]).1 < offset,
        ensures
            r == exists|j: int| 0 <= j < entries@.len() && offset - (#[trigger] entries@[j]).1 == d,
    {
        let mut i: usize = 0;
        while i < entries.len()
            invariant
                i <= entries@.len(),
                forall|j: int| 0 <= j < entries@.len() ==> (#[trigger] entries@[j]).1 < offset,
                forall|j: int| 0 <= j < i ==> offset - (#[trigger] entries@[j]).1 != d,
            decreases entries@.len() - i,
        {
            if offset - entries[i].1 == d {
                return true;
            }
            i += 1;
        }
        false
    }

    /// What is known where control arrives from this stack and from `other`.
    pub fn merge_with(&self, other: &KnownStack) -> (r: KnownStack)
        requires
            self.wf(),
            other.wf(),
        ensures
            r.wf(),
            r@ == self@.merge_with(other@),
    {
        let ghost a = self@;
        let ghost b = other@;
        let ghost entries = self.variables_on_stack@;
        // The variables that lie at the same depth on both stacks.
        let mut common: Vec<(VarId, u64)> = Vec::new();
        let ghost mut src: Seq<int> = Seq::empty();
        let mut i: usize = 0;
        while i < self.variables_on_stack.len()
            invariant
                self.wf(),
                other.wf(),
                a == self@,
                b == other@,
                entries == self.variables_on_stack@,
                i <= entries.len(),
                src.len() == common@.len(),
                forall|j: int| 0 <= j < src.len() ==> 0 <= #[trigger] src[j] < i,
                forall|j: int| 0 <= j < src.len() ==> #[trigger] common@[j] == entries[src[j]],
                forall|j: int, l: int| 0 <= j < l < src.len() ==> #[trigger] src[j] < #[trigger] src[l],
                forall|j: int| 0 <= j < src.len() ==> a.agrees_on(b, (#[trigger] common@[j]).0),
                forall|m: int|
                    0 <= m < i && a.agrees_on(b, (#[trigger] entries[m]).0) ==> has_key(
                        common@,
                        entries[m].0,
                    ),
            decreases entries.len() - i,
        {
            let (var, index) = self.variables_on_stack[i];
            proof {
                lemma_key_index_unique(entries, var, i as int);
                assert(a.positions.contains_key(var) && a.positions[var] == index);
            }
            let mut agrees = false;
            match other.get(var) {
                Some(other_index) => {
                    assert(b.positions.contains_key(var) && other_index < other.offset);
                    if self.offset - index == other.offset - other_index {
                        agrees = true;
                    }
                },
                None => {},
            }
            if agrees {
                let ghost before = common@;
                common.push((var, index));
                proof {
                    src = src.push(i as int);
                    assert forall|m: int|
                        0 <= m < i + 1 && a.agrees_on(b, (#[trigger] entries[m]).0) implies has_key(
                        common@,
                        entries[m].0,
                    ) by {
                        if m < i {
                            let j = key_index(before, entries[m].0);
                            assert(common@[j] == before[j]);
                        } else {
                            assert(common@[before.len() as int].0 == var);
                        }
                    }
                }
            }
            i += 1;
        }
        proof {
            // `common` holds exactly the agreeing variables, each once, with its cell.
            assert(distinct_keys(common@)) by {
                assert forall|j: int, l: int| 0 <= j < l < common@.len() implies (
                #[trigger] common@[j]).0 != (#[trigger] common@[l]).0 by {
                    assert(src[j] < src[l]);
                    assert(entries[src[j]].0 != entries[src[l]].0);
                }
            }
            assert forall|j: int| 0 <= j < common@.len() implies (#[trigger] common@[j]).1
                == a.positions[common@[j].0] && common@[j].1 < self.offset by {
                lemma_key_index_unique(entries, common@[j].0, src[j]);
            }
        }
        // How far down from the top the two stacks agree without a gap.
        let mut k: u64 = 0;
        while k < self.offset && Self::has_depth(&common, self.offset, k + 1)
            invariant
                self.wf(),
                a == self@,
                b == other@,
                k <= self.offset,
                a.common_top(b, k as int),
                forall|j: int|
                    0 <= j < common@.len() ==> a.agrees_on(b, (#[trigger] common@[j]).0)
                        && common@[j].1 == a.positions[common@[j].0] && common@[j].1 < self.offset,
            decreases self.offset - k,
        {
            proof {
                let j = choose|j: int|
                    0 <= j < common@.len() && self.offset - (#[trigger] common@[j]).1 == k + 1;
                assert(a.agrees_on(b, common@[j].0) && a.depth(common@[j].0) == k + 1);
                assert(a.common_at(b, k + 1));
            }
            k += 1;
        }
        proof {
            // Below depth `k` the stacks do not agree without a gap.
            assert forall|var: VarId| a.agrees_on(b, var) implies (a.common_top(b, a.depth(var))
                <==> a.depth(var) <= k) by {
                if a.depth(var) > k {
                    if k == self.offset {
                        assert(a.positions.contains_key(var));
                    } else if a.common_top(b, a.depth(var)) {
                        assert(a.common_at(b, k + 1));
                        let w = choose|w: VarId| #[trigger]
                            a.agrees_on(b, w) && a.depth(w) == k + 1;
                        assert(a.positions.contains_key(w));
                        assert(has_key(entries, w));
                        let m = key_index(entries, w);
                        assert(entries[m].0 == w);
                        assert(has_key(common@, w));
                        let j = key_index(common@, w);
                        assert(common@[j].0 == w);
                        assert(self.offset - common@[j].1 == k + 1);
                    }
                }
            }
        }
        let mut kept: Vec<(VarId, u64)> = Vec::new();
        let ghost mut from: Seq<int> = Seq::empty();
        let mut n: usize = 0;
        while n < common.len()
            invariant
                n <= common@.len(),
                k <= self.offset,
                distinct_keys(common@),
                from.len() == kept@.len(),
                forall|j: int| 0 <= j < from.len() ==> 0 <= #[trigger] from[j] < n,
                forall|j: int| 0 <= j < from.len() ==> #[trigger] kept@[j] == common@[from[j]],
                forall|j: int, l: int|
                    0 <= j < l < from.len() ==> #[trigger] from[j] < #[trigger] from[l],
                forall|j: int| 0 <= j < from.len() ==> self.offset - (#[trigger] kept@[j]).1 <= k,
                forall|j: int| 0 <= j < common@.len() ==> (#[trigger] common@[j]).1 < self.offset,
                forall|m: int|
                    0 <= m < n && self.offset - (#[trigger] common@[m]).1 <= k ==> has_key(
                        kept@,
                        common@[m].0,
                    ),
            decreases common@.len() - n,
        {
            let (var, index) = common[n];
            if self.offset - index <= k {
                let ghost before = kept@;
                kept.push((var, index));
                proof {
                    from = from.push(n as int);
                    assert forall|m: int|
                        0 <= m < n + 1 && self.offset - (#[trigger] common@[m]).1
                            <= k implies has_key(kept@, common@[m].0) by {
                        if m < n {
                            let j = key_index(before, common@[m].0);
                            assert(kept@[j] == before[j]);
                        } else {
                            assert(kept@[before.len() as int].0 == var);
                        }
                    }
                }
            }
            n += 1;
        }
        let r = KnownStack { variables_on_stack: kept, offset: self.offset };
        proof {
            assert(distinct_keys(kept@)) by {
                assert forall|j: int, l: int| 0 <= j < l < kept@.len() implies (
                #[trigger] kept@[j]).0 != (#[trigger] kept@[l]).0 by {
                    assert(from[j] < from[l]);
                    assert(common@[from[j]].0 != common@[from[l]].0);
                }
            }
            let merged = a.merge_with(b);
            assert forall|var: VarId| r@.positions.contains_key(var) implies merged.positions.contains_key(
                var,
            ) && r@.positions[var] == merged.positions[var] by {
                let j = key_index(kept@, var);
                assert(kept@[j].0 == var);
                assert(kept@[j] == common@[from[j]]);
                assert(a.agrees_on(b, common@[from[j]].0));
            }
            assert forall|var: VarId| merged.positions.contains_key(var) implies r@.positions.contains_key(
                var,
            ) by {
                assert(a.positions.contains_key(var));
                let m = key_index(entries, var);
                assert(entries[m].0 == var);
                assert(has_key(common@, var));
                let j = key_index(common@, var);
                assert(common@[j].0 == var);
            }
            assert(r@.positions =~= merged.positions);
            assert(r@.wf()) by {
                assert forall|var: VarId| #[trigger] r@.positions.contains_key(var) implies r@.positions[var]
                    < r@.offset by {
                    assert(merged.positions.contains_key(var));
                    assert(a.positions.contains_key(var));
                }
            }
        }
        r
    }
}

} // verus!
