//! Coverage tracking for sparse reads.
//!
//! The store keeps the exact ranges that were materialized, keyed by their
//! start offset, so the read path can decide whether a chunk is cached. It
//! does not normalize or merge ranges.

use vstd::prelude::*;

verus! {

/// `r` is what a floor lookup of `target` in `m` answers: the entry with the
/// greatest start that is at or before `target`, or `None` when every start
/// lies after `target`.
pub open spec fn is_floor_entry(m: Map<usize, usize>, target: usize, r: Option<(usize, usize)>) -> bool {
    match r {
        Some((start, end)) => {
            &&& m.contains_key(start)
            &&& start <= target
            &&& m[start] == end
            &&& forall|k: usize| #[trigger] m.contains_key(k) && k <= target ==> k <= start
        },
        None => forall|k: usize| #[trigger] m.contains_key(k) ==> k > target,
    }
}

/// The end offset that `insert(offset, length)` records: `offset + length`,
/// saturated at `usize::MAX`.
pub open spec fn saturating_end(offset: usize, length: usize) -> usize {
    if offset + length <= usize::MAX {
        (offset + length) as usize
    } else {
        usize::MAX
    }
}

/// Starts strictly increase along `s`.
pub open spec fn strictly_sorted(s: Seq<(usize, usize)>) -> bool {
    forall|i: int, j: int| 0 <= i < j < s.len() ==> #[trigger] s[i].0 < #[trigger] s[j].0
}

/// The map from start to end that the entries of `s` describe.
pub open spec fn entries_map(s: Seq<(usize, usize)>) -> Map<usize, usize> {
    Map::new(
        |k: usize| exists|i: int| 0 <= i < s.len() && #[trigger] s[i].0 == k,
        |k: usize| s[choose|i: int| 0 <= i < s.len() && #[trigger] s[i].0 == k].1,
    )
}

/// A floor lookup has exactly one answer: two answers for the same map and
/// target are equal.
pub proof fn lemma_floor_entry_unique(
    m: Map<usize, usize>,
    target: usize,
    r1: Option<(usize, usize)>,
    r2: Option<(usize, usize)>,
)
    requires
        is_floor_entry(m, target, r1),
        is_floor_entry(m, target, r2),
    ensures
        r1 == r2,
{
    match (r1, r2) {
        (Some((s1, _)), Some((s2, _))) => {
        },
        (Some((s1, _)), None) => {
        },
        (None, Some((s2, _))) => {
        },
        (None, None) => {},
    }
}

/// After recording a range at `offset`, a lookup of any target at or after
/// `offset` answers that range, as long as no other recorded range starts
/// after `offset` and at or before the target.
pub proof fn lemma_get_after_insert(m: Map<usize, usize>, offset: usize, end: usize, target: usize)
    requires
        offset <= target,
        forall|k: usize| #[trigger] m.contains_key(k) && offset < k ==> k > target,
    ensures
        forall|r: Option<(usize, usize)>|
            is_floor_entry(m.insert(offset, end), target, r) <==> r == Some((offset, end)),
{
    let m2 = m.insert(offset, end);
    assert(is_floor_entry(m2, target, Some((offset, end)))) by {
        assert(forall|k: usize| #[trigger] m2.contains_key(k) && k <= target ==> k <= offset);
    }
    assert forall|r: Option<(usize, usize)>| is_floor_entry(m2, target, r) implies r == Some(
        (offset, end),
    ) by {
        lemma_floor_entry_unique(m2, target, r, Some((offset, end)));
    }
}

/// Exact covered ranges, as a map from start offset to end offset.
pub struct Coverage {
    store: Vec<(usize, usize)>,
}

impl View for Coverage {
    type V = Map<usize, usize>;

    closed spec fn view(&self) -> Map<usize, usize> {
        entries_map(self.store@)
    }
}

/// In a strictly sorted sequence, the entry at index `i` is the one the map
/// holds for its start.
proof fn lemma_entry_at(s: Seq<(usize, usize)>, i: int)
    requires
        strictly_sorted(s),
        0 <= i < s.len(),
    ensures
        entries_map(s).contains_key(s[i].0),
        entries_map(s)[s[i].0] == s[i].1,
{
}

impl Coverage {
    #[verifier::type_invariant]
    spec fn sorted(&self) -> bool {
        strictly_sorted(self.store@)
    }

    /// Creates an empty coverage store.
    pub fn new() -> (c: Self)
        ensures
            c@ == Map::<usize, usize>::empty(),
    {
        let c = Coverage { store: Vec::new() };
        c
    }

    /// Number of entries whose start satisfies `start <= bound` (when
    /// `inclusive`) or `start < bound` (otherwise).
    fn partition_point(&self, bound: usize, inclusive: bool) -> (p: usize)
        ensures
            p <= self.store@.len(),
            forall|i: int|
                0 <= i < p ==> (if inclusive {
                    #[trigger] self.store@[i].0 <= bound
                } else {
                    self.store@[i].0 < bound
                }),
            forall|i: int|
                p <= i < self.store@.len() ==> (if inclusive {
                    #[trigger] self.store@[i].0 > bound
                } else {
                    self.store@[i].0 >= bound
                }),
    {
        proof {
            use_type_invariant(self);
        }
        let mut lo: usize = 0;
        let mut hi: usize = self.store.len();
        while lo < hi
            invariant
                lo <= hi <= self.store@.len(),
                strictly_sorted(self.store@),
                forall|i: int|
                    0 <= i < lo ==> (if inclusive {
                        #[trigger] self.store@[i].0 <= bound
                    } else {
                        self.store@[i].0 < bound
                    }),
                forall|i: int|
                    hi <= i < self.store@.len() ==> (if inclusive {
                        #[trigger] self.store@[i].0 > bound
                    } else {
                        self.store@[i].0 >= bound
                    }),
            decreases hi - lo,
        {
            let mid = lo + (hi - lo) / 2;
            let start = self.store[mid].0;
            let below = if inclusive {
                start <= bound
            } else {
                start < bound
            };
            if below {
                proof {
                    assert(forall|i: int| 0 <= i <= mid ==> (if inclusive {
                        #[trigger] self.store@[i].0 <= bound
                    } else {
                        self.store@[i].0 < bound
                    }));
                }
                lo = mid + 1;
            } else {
                proof {
                    assert(forall|i: int| mid <= i < self.store@.len() ==> (if inclusive {
                        #[trigger] self.store@[i].0 > bound
                    } else {
                        self.store@[i].0 >= bound
                    }));
                }
                hi = mid;
            }
        }
        lo
    }

    /// Gets the recorded range with the greatest start at or before `target`.
    pub fn get(&self, target: usize) -> (r: Option<(usize, usize)>)
        ensures
            is_floor_entry(self@, target, r),
    {
        proof {
            use_type_invariant(self);
        }
        let p = self.partition_point(target, true);
        if p == 0 {
            proof {
                assert(forall|k: usize| #[trigger] self@.contains_key(k) ==> k > target);
            }
            None
        } else {
            let entry = self.store[p - 1];
            proof {
                lemma_entry_at(self.store@, p - 1);
                assert(forall|k: usize| #[trigger] self@.contains_key(k) && k <= target ==> k <= entry.0);
            }
            Some(entry)
        }
    }

    /// Records the range `[offset, offset + length)`, replacing any range
    /// recorded at the same start; the end saturates at `usize::MAX`.
    pub fn insert(&mut self, offset: usize, length: usize)
        ensures
            final(self)@ == old(self)@.insert(offset, saturating_end(offset, length)),
    {
        proof {
            use_type_invariant(&*self);
        }
        let end = offset.saturating_add(length);
        let p = self.partition_point(offset, false);
        let ghost old_s = self.store@;
        let replace = p < self.store.len() && self.store[p].0 == offset;
        let mut store = Vec::new();
        std::mem::swap(&mut store, &mut self.store);
        if replace {
            store.set(p, (offset, end));
        } else {
            store.insert(p, (offset, end));
        }
        proof {
            let s = store@;
            assert(strictly_sorted(s));
            assert(entries_map(s) =~= entries_map(old_s).insert(offset, end)) by {
                assert forall|k: usize| #[trigger]
                    entries_map(s).contains_key(k) == entries_map(old_s).insert(
                        offset,
                        end,
                    ).contains_key(k) by {
                    if entries_map(old_s).contains_key(k) && k != offset {
                        let i = choose|i: int| 0 <= i < old_s.len() && #[trigger] old_s[i].0 == k;
                        if replace || i < p {
                            assert(s[i].0 == k);
                        } else {
                            assert(s[i + 1].0 == k);
                        }
                    }
                    if k == offset {
                        assert(s[p as int].0 == k);
                    }
                }
                assert forall|k: usize| #[trigger] entries_map(s).contains_key(k) implies entries_map(
                    s,
                )[k] == entries_map(old_s).insert(offset, end)[k] by {
                    let i = choose|i: int| 0 <= i < s.len() && #[trigger] s[i].0 == k;
                    lemma_entry_at(s, i);
                    if k != offset {
                        if replace || i < p {
                            lemma_entry_at(old_s, i);
                        } else {
                            lemma_entry_at(old_s, i - 1);
                        }
                    }
                }
            }
        }
        self.store = store;
    }
}

} // verus!
