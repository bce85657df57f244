//! The side registry: which faces of the die exist, what they are called and
//! whether an interval is tracked while they face up.
use vstd::prelude::*;

verus! {

/// The mathematical value of a [`Side`].
pub struct SideView {
    pub side_num: u8,
    pub label: Seq<char>,
    pub configurable: bool,
}

/// One face of the die with the activity label the user gave it.
#[derive(Debug)]
pub struct Side {
    pub side_num: u8,
    pub label: String,
    pub configurable: bool,
}

impl View for Side {
    type V = SideView;

    open spec fn view(&self) -> SideView {
        SideView { side_num: self.side_num, label: self.label@, configurable: self.configurable }
    }
}

impl Side {
    /// A copy of this side with the same number, label and flag.
    pub fn duplicate(&self) -> (r: Side)
        ensures
            r@ == self@,
    {
        Side { side_num: self.side_num, label: self.label.clone(), configurable: self.configurable }
    }
}

/// The mathematical value of a [`TimeularConfig`].
pub struct RegistryView {
    pub sides: Seq<SideView>,
    pub handler: Seq<char>,
}

/// The registry of sides, together with the selector of the dispatch variant.
#[derive(Debug)]
pub struct TimeularConfig {
    pub sides: Vec<Side>,
    pub handler: String,
}

/// The failure of a registry lookup.
#[derive(Debug, Clone, Copy, PartialEq, Eq, Structural)]
pub enum TrackerError {
    /// The face number is not in the registry.
    UnknownSide(u8),
}

impl View for TimeularConfig {
    type V = RegistryView;

    open spec fn view(&self) -> RegistryView {
        RegistryView { sides: self.sides@.map_values(|s: Side| s@), handler: self.handler@ }
    }
}

/// `i` is the first position of `sides` that holds face `n`.
pub open spec fn is_first(sides: Seq<SideView>, n: u8, i: int) -> bool {
    &&& 0 <= i < sides.len()
    &&& sides[i].side_num == n
    &&& forall|j: int| 0 <= j < i ==> sides[j].side_num != n
}

/// Face `n` is registered.
pub open spec fn contains_side(sides: Seq<SideView>, n: u8) -> bool {
    exists|i: int| 0 <= i < sides.len() && sides[i].side_num == n
}

/// The position of the (first) entry for face `n`; meaningful when it is registered.
pub open spec fn side_index(sides: Seq<SideView>, n: u8) -> int {
    choose|i: int| is_first(sides, n, i)
}

/// The entry for face `n`; meaningful when it is registered.
pub open spec fn lookup(sides: Seq<SideView>, n: u8) -> SideView {
    sides[side_index(sides, n)]
}

/// Face `n` is registered and carries a non-empty label.
pub open spec fn trackable(sides: Seq<SideView>, n: u8) -> bool {
    contains_side(sides, n) && lookup(sides, n).label.len() > 0
}

/// The sides after `set_side(n, label)`: the label of a registered face is
/// replaced, an unknown face is appended as a configurable side.
pub open spec fn with_label(sides: Seq<SideView>, n: u8, label: Seq<char>) -> Seq<SideView> {
    if contains_side(sides, n) {
        let i = side_index(sides, n);
        sides.update(i, SideView { label: label, ..sides[i] })
    } else {
        sides.push(SideView { side_num: n, label: label, configurable: true })
    }
}

/// The sides of a fresh registry: faces 1 to 8 configurable, faces 9 to 13
/// and then face 0 reserved, every label empty.
pub open spec fn default_sides() -> Seq<SideView> {
    Seq::new(14, |i: int| if i < 13 {
        SideView { side_num: (i + 1) as u8, label: Seq::empty(), configurable: i < 8 }
    } else {
        SideView { side_num: 0, label: Seq::empty(), configurable: false }
    })
}

/// The first position holding face `n` is the one `side_index` picks.
pub proof fn lemma_side_index(sides: Seq<SideView>, n: u8, i: int)
    requires
        is_first(sides, n, i),
    ensures
        side_index(sides, n) == i,
        contains_side(sides, n),
{
    let k = side_index(sides, n);
    assert(is_first(sides, n, k));
    if k < i {
        assert(sides[k].side_num != n);
    } else if i < k {
        assert(sides[i].side_num != n);
    }
}

/// A registered face has a first position.
pub proof fn lemma_contains_has_first(sides: Seq<SideView>, n: u8)
    requires
        contains_side(sides, n),
    ensures
        is_first(sides, n, side_index(sides, n)),
    decreases sides.len(),
{
    let i = choose|i: int| 0 <= i < sides.len() && sides[i].side_num == n;
    if exists|j: int| 0 <= j < i && sides[j].side_num == n {
        let j = choose|j: int| 0 <= j < i && sides[j].side_num == n;
        let pre = sides.subrange(0, i);
        assert(pre[j].side_num == n);
        lemma_contains_has_first(pre, n);
        let k = side_index(pre, n);
        assert forall|m: int| 0 <= m < k implies sides[m].side_num != n by {
            assert(pre[m] == sides[m]);
        }
        assert(pre[k] == sides[k]);
        assert(is_first(sides, n, k));
        lemma_side_index(sides, n, k);
    } else {
        assert(is_first(sides, n, i));
        lemma_side_index(sides, n, i);
    }
}

impl TimeularConfig {
    /// The position of the first entry for `side_num`, if any.
    fn find_side_index(&self, side_num: &u8) -> (r: Option<usize>)
        ensures
            r matches Some(i) ==> is_first(self@.sides, *side_num, i as int),
            r is None <==> !contains_side(self@.sides, *side_num),
    {
        let mut i: usize = 0;
        while i < self.sides.len()
            invariant
                i <= self.sides@.len(),
                forall|j: int| 0 <= j < i ==> self@.sides[j].side_num != *side_num,
            decreases self.sides@.len() - i,
        {
            if self.sides[i].side_num == *side_num {
                assert(self@.sides[i as int].side_num == *side_num);
                return Some(i);
            }
            i = i + 1;
        }
        None
    }

    /// The entry for `side_num`, if it is registered.
    pub fn find_side(&self, side_num: &u8) -> (r: Option<&Side>)
        ensures
            r is None <==> !contains_side(self@.sides, *side_num),
            r matches Some(s) ==> s@ == lookup(self@.sides, *side_num),
    {
        match self.find_side_index(side_num) {
            Some(i) => {
                proof {
                    lemma_side_index(self@.sides, *side_num, i as int);
                }
                Some(&self.sides[i])
            },
            None => None,
        }
    }

    /// The entry for `side_num`; an unknown face is an error.
    pub fn get_side(&self, side_num: &u8) -> (r: Result<&Side, TrackerError>)
        ensures
            r is Err <==> !contains_side(self@.sides, *side_num),
            r matches Err(e) ==> e == TrackerError::UnknownSide(*side_num),
            r matches Ok(s) ==> s@ == lookup(self@.sides, *side_num),
    {
        match self.find_side(side_num) {
            Some(s) => Ok(s),
            None => Err(TrackerError::UnknownSide(*side_num)),
        }
    }

    /// Whether `side_num` is registered with a non-empty label.
    pub fn is_trackable(&self, side_num: &u8) -> (r: bool)
        ensures
            r == trackable(self@.sides, *side_num),
    {
        match self.find_side(side_num) {
            Some(s) => !s.label.as_str().is_empty(),
            None => false,
        }
    }

    /// Sets the label of `side_num`, registering it as a configurable side
    /// when it is not registered yet.
    pub fn set_side(&mut self, side_num: u8, label: String)
        ensures
            final(self)@.sides == with_label(old(self)@.sides, side_num, label@),
            final(self)@.handler == old(self)@.handler,
    {
        match self.find_side_index(&side_num) {
            Some(i) => {
                proof {
                    lemma_side_index(self@.sides, side_num, i as int);
                }
                let configurable = self.sides[i].configurable;
                self.sides.set(i, Side { side_num, label, configurable });
                assert(self@.sides =~= with_label(old(self)@.sides, side_num, label@));
            },
            None => {
                self.sides.push(Side { side_num, label, configurable: true });
                assert(self@.sides =~= with_label(old(self)@.sides, side_num, label@));
            },
        }
    }
}

impl Default for TimeularConfig {
    /// Faces 1 to 8 configurable, 9 to 13 and 0 reserved, all labels empty,
    /// and an empty handler selector.
    fn default() -> (r: TimeularConfig)
        ensures
            r@.sides == default_sides(),
            r@.handler == Seq::<char>::empty(),
    {
        let mut sides: Vec<Side> = Vec::new();
        let mut n: u8 = 1;
        while n <= 13
            invariant
                1 <= n <= 14,
                sides@.len() == n - 1,
                forall|i: int| 0 <= i < n - 1 ==> #[trigger] sides@[i]@ == default_sides()[i],
            decreases 14 - n,
        {
            sides.push(Side { side_num: n, label: String::new(), configurable: n <= 8 });
            n = n + 1;
        }
        sides.push(Side { side_num: 0, label: String::new(), configurable: false });
        let r = TimeularConfig { sides, handler: String::new() };
        assert(r@.sides =~= default_sides());
        r
    }
}

/// After `set_side(n, label)`, the entry for `n` carries `label`.
pub proof fn lemma_set_then_get(sides: Seq<SideView>, n: u8, label: Seq<char>)
    ensures
        contains_side(with_label(sides, n, label), n),
        lookup(with_label(sides, n, label), n).label == label,
{
    let s2 = with_label(sides, n, label);
    if contains_side(sides, n) {
        lemma_contains_has_first(sides, n);
        let i = side_index(sides, n);
        assert(is_first(s2, n, i));
        lemma_side_index(s2, n, i);
    } else {
        let i = sides.len() as int;
        assert(is_first(s2, n, i));
        lemma_side_index(s2, n, i);
    }
}

/// Setting the same label twice leaves the registry as setting it once.
pub proof fn lemma_set_side_idempotent(sides: Seq<SideView>, n: u8, label: Seq<char>)
    ensures
        with_label(with_label(sides, n, label), n, label) == with_label(sides, n, label),
{
    let s2 = with_label(sides, n, label);
    lemma_set_then_get(sides, n, label);
    lemma_contains_has_first(s2, n);
    let i = side_index(s2, n);
    assert(s2[i] == SideView { label: label, ..s2[i] });
    assert(with_label(s2, n, label) =~= s2);
}

/// A fresh registry has face 9 reserved and untracked; after face 1 gets a
/// non-empty label it is tracked.
pub proof fn lemma_default_registry(label: Seq<char>)
    requires
        label.len() > 0,
    ensures
        contains_side(default_sides(), 9),
        lookup(default_sides(), 9).configurable == false,
        !trackable(default_sides(), 9),
        trackable(with_label(default_sides(), 1, label), 1),
{
    let d = default_sides();
    assert(is_first(d, 9, 8));
    lemma_side_index(d, 9, 8);
    lemma_set_then_get(d, 1, label);
}

} // verus!
