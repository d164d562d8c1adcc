//! The order of clients, and stepping through them.

use vstd::prelude::*;

use crate::config::{roster, CharacterEntry, CharacterModel, Config, ConfigModel};
use crate::window_manager::{windows_of, EveWindow, WindowModel};

verus! {

/// The clients that run, the order in which they are cycled through, and the
/// client that had the focus last.
pub struct CycleState {
    order: Option<Vec<CharacterEntry>>,
    windows: Vec<EveWindow>,
    current: Option<u32>,
}

/// The state of a cycle, by what its texts say.
#[verifier::ext_equal]
pub struct CycleModel {
    pub order: Option<Seq<CharacterModel>>,
    pub windows: Seq<WindowModel>,
    pub current: Option<u32>,
}

/// A list that may be there, by what its names say.
pub open spec fn order_of(order: Option<Vec<CharacterEntry>>) -> Option<Seq<CharacterModel>> {
    match order {
        Some(list) => Some(roster(list@)),
        None => None,
    }
}

impl View for CycleState {
    type V = CycleModel;

    closed spec fn view(&self) -> CycleModel {
        CycleModel {
            order: order_of(self.order),
            windows: windows_of(self.windows@),
            current: self.current,
        }
    }
}

/// The place of a title in a list: that of the first character of this name,
/// or the end of the list for a title that is not on it.
pub open spec fn rank(list: Seq<CharacterModel>, title: Seq<char>) -> int
    decreases list.len(),
{
    if list.len() == 0 {
        0
    } else if list.first().name == title {
        0
    } else {
        1 + rank(list.drop_first(), title)
    }
}

/// The windows whose title has one rank, in the order in which they were
/// found.
pub open spec fn at_rank(list: Seq<CharacterModel>, windows: Seq<WindowModel>, r: int) -> Seq<
    WindowModel,
> {
    windows.filter(|w: WindowModel| rank(list, w.title) == r)
}

/// The windows whose title has a rank below `r`, by rank.
pub open spec fn below_rank(
    list: Seq<CharacterModel>,
    windows: Seq<WindowModel>,
    r: nat,
) -> Seq<WindowModel>
    decreases r,
{
    if r == 0 {
        Seq::empty()
    } else {
        below_rank(list, windows, (r - 1) as nat) + at_rank(list, windows, r - 1)
    }
}

/// The windows in the order of the list, then those that are not on it.
/// Without a list, in the order in which they were found.
pub open spec fn ordered(m: CycleModel) -> Seq<WindowModel> {
    match m.order {
        Some(list) => below_rank(list, m.windows, list.len() + 1),
        None => m.windows,
    }
}

/// Cycling stops at the window: its character is in the cycle. Without a list
/// it stops at every window.
pub open spec fn in_cycle(m: CycleModel, title: Seq<char>) -> bool {
    match m.order {
        Some(list) => rank(list, title) < list.len() && list[rank(list, title)].in_cycle,
        None => true,
    }
}

proof fn lemma_rank_bounds(list: Seq<CharacterModel>, title: Seq<char>)
    ensures
        0 <= rank(list, title) <= list.len(),
        rank(list, title) < list.len() ==> list[rank(list, title)].name == title,
        forall|i: int| 0 <= i < rank(list, title) ==> (#[trigger] list[i]).name != title,
    decreases list.len(),
{
    if list.len() > 0 && list.first().name != title {
        lemma_rank_bounds(list.drop_first(), title);
        assert forall|i: int| 0 <= i < rank(list, title) implies (#[trigger] list[i]).name
            != title by {
            if i > 0 {
                assert(list.drop_first()[i - 1] == list[i]);
            }
        }
    }
}

proof fn lemma_rank_found(list: Seq<CharacterModel>, title: Seq<char>, i: int)
    requires
        0 <= i <= list.len(),
        forall|j: int| 0 <= j < i ==> (#[trigger] list[j]).name != title,
        i < list.len() ==> list[i].name == title,
    ensures
        rank(list, title) == i,
    decreases list.len(),
{
    lemma_rank_bounds(list, title);
}

/// The place of a title in a list.
fn rank_of(list: &Vec<CharacterEntry>, title: &String) -> (r: usize)
    ensures
        r == rank(roster(list@), title@),
        r <= list@.len(),
{
    let mut i: usize = 0;
    while i < list.len()
        invariant
            i <= list@.len(),
            forall|j: int| 0 <= j < i ==> (#[trigger] roster(list@)[j]).name != title@,
        decreases list@.len() - i,
    {
        if list[i].name == *title {
            proof {
                lemma_rank_found(roster(list@), title@, i as int);
            }
            return i;
        }
        i = i + 1;
    }
    proof {
        lemma_rank_found(roster(list@), title@, i as int);
    }
    i
}

impl CycleState {
    /// No clients and no order.
    pub fn new() -> (r: Self)
        ensures
            r@ == (CycleModel { order: None, windows: Seq::empty(), current: None }),
    {
        let r = CycleState { order: None, windows: Vec::new(), current: None };
        assert(r@.windows =~= Seq::empty());
        r
    }

    /// Cycles in the order of a list from now on, or, without one, in the
    /// order in which windows are found.
    pub fn set_character_order(&mut self, order: Option<Vec<CharacterEntry>>)
        ensures
            final(self)@ == (CycleModel { order: order_of(order), ..old(self)@ }),
    {
        self.order = order;
    }

    /// Takes over the windows that run now.
    pub fn update_windows(&mut self, windows: Vec<EveWindow>)
        ensures
            final(self)@ == (CycleModel { windows: windows_of(windows@), ..old(self)@ }),
    {
        self.windows = windows;
    }

    /// The windows in the order in which they were found.
    pub fn get_windows(&self) -> (r: Vec<EveWindow>)
        ensures
            windows_of(r@) == self@.windows,
    {
        let r: Vec<EveWindow> = self.windows.clone();
        assert(windows_of(r@) =~= windows_of(self.windows@));
        r
    }

    /// The windows in the order of the list.
    pub fn get_ordered_windows(&self) -> (r: Vec<EveWindow>)
        ensures
            windows_of(r@) == ordered(self@),
    {
        match &self.order {
            None => self.get_windows(),
            Some(list) => {
                let ghost names = roster(list@);
                let ghost all = windows_of(self.windows@);
                let mut out: Vec<EveWindow> = Vec::new();
                assert(windows_of(out@) =~= Seq::empty());
                let mut r: usize = 0;
                let n: usize = list.len();
                loop
                    invariant_except_break
                        r <= n,
                        windows_of(out@) == below_rank(names, all, r as nat),
                    invariant
                        n == list@.len(),
                        names == roster(list@),
                        all == windows_of(self.windows@),
                    ensures
                        windows_of(out@) == below_rank(names, all, (n + 1) as nat),
                    decreases n - r,
                {
                    self.push_rank(list, r, &mut out);
                    if r == n {
                        break;
                    }
                    r = r + 1;
                }
                out
            },
        }
    }

    /// Appends the windows whose title has one rank.
    fn push_rank(&self, list: &Vec<CharacterEntry>, r: usize, out: &mut Vec<EveWindow>)
        ensures
            windows_of(final(out)@) == windows_of(old(out)@) + at_rank(
                roster(list@),
                windows_of(self.windows@),
                r as int,
            ),
    {
        let ghost names = roster(list@);
        let ghost all = windows_of(self.windows@);
        let ghost pred = |w: WindowModel| rank(names, w.title) == r as int;
        let ghost start = windows_of(out@);
        let mut i: usize = 0;
        assert(all.take(0).filter(pred) =~= Seq::empty());
        assert(windows_of(out@) =~= start + all.take(0).filter(pred));
        while i < self.windows.len()
            invariant
                i <= self.windows@.len(),
                names == roster(list@),
                all == windows_of(self.windows@),
                pred == (|w: WindowModel| rank(names, w.title) == r as int),
                windows_of(out@) == start + all.take(i as int).filter(pred),
            decreases self.windows@.len() - i,
        {
            let w: EveWindow = self.windows[i].clone();
            let ghost before = windows_of(out@);
            let ghost window = w@;
            proof {
                assert(all.take(i + 1) =~= all.take(i as int).push(window));
                lemma_filter_push(all.take(i as int), pred, window);
            }
            if rank_of(list, &w.title) == r {
                out.push(w);
                assert(windows_of(out@) =~= before.push(window));
                assert(windows_of(out@) =~= start + all.take(i + 1).filter(pred));
            }
            i = i + 1;
        }
        assert(all.take(all.len() as int) =~= all);
    }
}

proof fn lemma_filter_push<A>(s: Seq<A>, pred: spec_fn(A) -> bool, a: A)
    ensures
        s.push(a).filter(pred) == if pred(a) {
            s.filter(pred).push(a)
        } else {
            s.filter(pred)
        },
{
    reveal(Seq::filter);
    assert(s.push(a).drop_last() =~= s);
}

/// The place of the first window with the number `id`.
pub open spec fn spot(windows: Seq<WindowModel>, id: u32) -> Option<int>
    decreases windows.len(),
{
    if windows.len() == 0 {
        None
    } else if windows.first().id == id {
        Some(0)
    } else {
        match spot(windows.drop_first(), id) {
            Some(i) => Some(i + 1),
            None => None,
        }
    }
}

/// Which places of the order cycling stops at.
pub open spec fn stops(m: CycleModel) -> Seq<bool> {
    Seq::new(ordered(m).len(), |i: int| in_cycle(m, ordered(m)[i].title))
}

/// The place after or before `i` on a ring of `n` places.
pub open spec fn neighbour(i: int, forward: bool, n: int) -> int {
    if forward {
        if i + 1 == n {
            0
        } else {
            i + 1
        }
    } else {
        if i == 0 {
            n - 1
        } else {
            i - 1
        }
    }
}

/// The first stop after (or before) `from` on the ring, among the next `left`
/// places.
pub open spec fn seek(flags: Seq<bool>, from: int, forward: bool, left: nat) -> Option<int>
    decreases left,
{
    if left == 0 {
        None
    } else {
        let i = neighbour(from, forward, flags.len() as int);
        if flags[i] {
            Some(i)
        } else {
            seek(flags, i, forward, (left - 1) as nat)
        }
    }
}

/// The place that a step starts from: that of the client that had the focus
/// last, or just outside the order when there is none.
pub open spec fn step_from(m: CycleModel, forward: bool) -> int {
    let n = ordered(m).len() as int;
    let outside = if forward {
        n - 1
    } else {
        0
    };
    match m.current {
        Some(id) => match spot(ordered(m), id) {
            Some(i) => i,
            None => outside,
        },
        None => outside,
    }
}

/// The client that a step goes to: the next one in the cycle, all the way
/// round.
pub open spec fn step_to(m: CycleModel, forward: bool) -> Option<u32> {
    if ordered(m).len() == 0 {
        None
    } else {
        match seek(stops(m), step_from(m, forward), forward, ordered(m).len()) {
            Some(i) => Some(ordered(m)[i].id),
            None => None,
        }
    }
}

/// The client that a number stands for, counted from one: the first window of
/// the character at that place of the list, in the cycle or not; without a
/// list, the window that was found at that place.
pub open spec fn numbered(
    windows: Seq<WindowModel>,
    list: Option<Seq<CharacterModel>>,
    target: usize,
) -> Option<u32> {
    match list {
        Some(names) => if 1 <= target <= names.len() {
            titled(windows, names[target - 1].name)
        } else {
            None
        },
        None => if 1 <= target <= windows.len() {
            Some(windows[target - 1].id)
        } else {
            None
        },
    }
}

/// The first window with a title.
pub open spec fn titled(windows: Seq<WindowModel>, title: Seq<char>) -> Option<u32>
    decreases windows.len(),
{
    if windows.len() == 0 {
        None
    } else if windows.first().title == title {
        Some(windows.first().id)
    } else {
        titled(windows.drop_first(), title)
    }
}

/// What a step asks of the desktop.
#[derive(Debug, Clone, Copy, PartialEq, Eq, Structural)]
pub struct CycleStep {
    /// The window that gets the focus.
    pub activate: Option<u32>,
    /// The window that is minimized after that.
    pub minimize: Option<u32>,
}

/// What going to a client asks for. With `minimize_inactive`, the client that
/// is left is minimized, if it still runs and is another one.
pub open spec fn moves_to(m: CycleModel, to: Option<u32>, minimize_inactive: bool) -> CycleStep {
    CycleStep {
        activate: to,
        minimize: if minimize_inactive && to is Some && m.current is Some && m.current != to
            && spot(m.windows, m.current->0) is Some {
            m.current
        } else {
            None
        },
    }
}

/// The state once a client was gone to.
pub open spec fn gone_to(m: CycleModel, to: Option<u32>) -> CycleModel {
    match to {
        Some(id) => CycleModel { current: Some(id), ..m },
        None => m,
    }
}

/// The state once a window got the focus: if it is that of a client, cycling
/// goes on from there.
pub open spec fn synced(m: CycleModel, active: u32) -> CycleModel {
    if spot(m.windows, active) is Some {
        CycleModel { current: Some(active), ..m }
    } else {
        m
    }
}

/// The place of the first window with the number `id`.
fn find_id(windows: &Vec<EveWindow>, id: u32) -> (r: Option<usize>)
    ensures
        match r {
            Some(i) => spot(windows_of(windows@), id) == Some(i as int) && i < windows@.len(),
            None => spot(windows_of(windows@), id) is None,
        },
{
    let ghost all = windows_of(windows@);
    let mut i: usize = 0;
    assert(all.skip(0) =~= all);
    while i < windows.len()
        invariant
            i <= windows@.len(),
            all == windows_of(windows@),
            match spot(all.skip(i as int), id) {
                Some(k) => spot(all, id) == Some(k + i),
                None => spot(all, id) is None,
            },
        decreases windows@.len() - i,
    {
        assert(all.skip(i as int).first() == windows@[i as int]@);
        assert(all.skip(i as int).drop_first() =~= all.skip(i + 1));
        if windows[i].id == id {
            return Some(i);
        }
        i = i + 1;
    }
    None
}

impl CycleState {
    /// Whether cycling stops at a title.
    fn stops_at(&self, title: &String) -> (r: bool)
        ensures
            r == in_cycle(self@, title@),
    {
        match &self.order {
            None => true,
            Some(list) => {
                let at: usize = rank_of(list, title);
                if at < list.len() {
                    assert(roster(list@)[at as int].in_cycle == list@[at as int].in_cycle);
                    list[at].in_cycle
                } else {
                    false
                }
            },
        }
    }

    /// The client that a step goes to.
    fn find_step(&self, forward: bool) -> (r: Option<u32>)
        ensures
            r == step_to(self@, forward),
    {
        let list: Vec<EveWindow> = self.get_ordered_windows();
        let n: usize = list.len();
        let ghost m = self@;
        assert(ordered(m).len() == n);
        if n == 0 {
            return None;
        }
        let outside: usize = if forward {
            n - 1
        } else {
            0
        };
        let mut at: usize = match self.current {
            Some(id) => {
                match find_id(&list, id) {
                    Some(i) => i,
                    None => outside,
                }
            },
            None => outside,
        };
        let mut left: usize = n;
        while left > 0
            invariant
                at < n,
                left <= n,
                n == list@.len(),
                m == self@,
                windows_of(list@) == ordered(m),
                seek(stops(m), step_from(m, forward), forward, n as nat) == seek(
                    stops(m),
                    at as int,
                    forward,
                    left as nat,
                ),
            decreases left,
        {
            at = if forward {
                if at + 1 == n {
                    0
                } else {
                    at + 1
                }
            } else {
                if at == 0 {
                    n - 1
                } else {
                    at - 1
                }
            };
            assert(ordered(m)[at as int] == list@[at as int]@);
            if self.stops_at(&list[at].title) {
                return Some(list[at].id);
            }
            left = left - 1;
        }
        None
    }

    /// Goes to a client.
    fn go_to(&mut self, to: Option<u32>, minimize_inactive: bool) -> (r: CycleStep)
        ensures
            r == moves_to(old(self)@, to, minimize_inactive),
            final(self)@ == gone_to(old(self)@, to),
    {
        let mut step: CycleStep = CycleStep { activate: to, minimize: None };
        if let Some(id) = to {
            if minimize_inactive {
                if let Some(left) = self.current {
                    if left != id && find_id(&self.windows, left).is_some() {
                        step.minimize = Some(left);
                    }
                }
            }
            self.current = Some(id);
        }
        step
    }

    /// Steps to the next client in the cycle.
    pub fn cycle_forward(&mut self, minimize_inactive: bool) -> (r: CycleStep)
        ensures
            r == moves_to(old(self)@, step_to(old(self)@, true), minimize_inactive),
            final(self)@ == gone_to(old(self)@, step_to(old(self)@, true)),
    {
        let to: Option<u32> = self.find_step(true);
        self.go_to(to, minimize_inactive)
    }

    /// Steps to the client before in the cycle.
    pub fn cycle_backward(&mut self, minimize_inactive: bool) -> (r: CycleStep)
        ensures
            r == moves_to(old(self)@, step_to(old(self)@, false), minimize_inactive),
            final(self)@ == gone_to(old(self)@, step_to(old(self)@, false)),
    {
        let to: Option<u32> = self.find_step(false);
        self.go_to(to, minimize_inactive)
    }

    /// Jumps to the client that a number stands for.
    pub fn switch_to(
        &mut self,
        target: usize,
        minimize_inactive: bool,
        order: &Option<Vec<CharacterEntry>>,
    ) -> (r: CycleStep)
        ensures
            r == moves_to(
                old(self)@,
                numbered(old(self)@.windows, order_of(*order), target),
                minimize_inactive,
            ),
            final(self)@ == gone_to(
                old(self)@,
                numbered(old(self)@.windows, order_of(*order), target),
            ),
    {
        let to: Option<u32> = match order {
            Some(list) => {
                if 1 <= target && target <= list.len() {
                    assert(roster(list@)[target - 1].name == list@[target - 1].name@);
                    find_title(&self.windows, &list[target - 1].name)
                } else {
                    None
                }
            },
            None => {
                if 1 <= target && target <= self.windows.len() {
                    Some(self.windows[target - 1].id)
                } else {
                    None
                }
            },
        };
        self.go_to(to, minimize_inactive)
    }

    /// Takes note of the window that has the focus.
    pub fn sync_with_active(&mut self, active: u32)
        ensures
            final(self)@ == synced(old(self)@, active),
    {
        if find_id(&self.windows, active).is_some() {
            self.current = Some(active);
        }
    }
}

/// The first window with a title.
fn find_title(windows: &Vec<EveWindow>, title: &String) -> (r: Option<u32>)
    ensures
        r == titled(windows_of(windows@), title@),
{
    let ghost all = windows_of(windows@);
    let mut i: usize = 0;
    assert(all.skip(0) =~= all);
    while i < windows.len()
        invariant
            i <= windows@.len(),
            all == windows_of(windows@),
            titled(all, title@) == titled(all.skip(i as int), title@),
        decreases windows@.len() - i,
    {
        assert(all.skip(i as int).first() == windows@[i as int]@);
        assert(all.skip(i as int).drop_first() =~= all.skip(i + 1));
        if windows[i].title == *title {
            return Some(windows[i].id);
        }
        i = i + 1;
    }
    None
}

proof fn lemma_split_multiset<A>(
    s: Seq<A>,
    p: spec_fn(A) -> bool,
    q: spec_fn(A) -> bool,
    both: spec_fn(A) -> bool,
)
    requires
        forall|a: A| #[trigger] p(a) ==> !q(a),
        forall|a: A| #[trigger] both(a) == (p(a) || q(a)),
    ensures
        s.filter(p).to_multiset().add(s.filter(q).to_multiset()) =~= s.filter(both).to_multiset(),
    decreases s.len(),
{
    broadcast use vstd::seq_lib::group_to_multiset_ensures;

    if s.len() == 0 {
        reveal(Seq::filter);
        assert(s.filter(p) =~= Seq::empty());
        assert(s.filter(q) =~= Seq::empty());
        assert(s.filter(both) =~= Seq::empty());
    } else {
        let rest = s.drop_last();
        let a = s.last();
        assert(s =~= rest.push(a));
        lemma_split_multiset(rest, p, q, both);
        lemma_filter_push(rest, p, a);
        lemma_filter_push(rest, q, a);
        lemma_filter_push(rest, both, a);
    }
}

proof fn lemma_below_rank(list: Seq<CharacterModel>, windows: Seq<WindowModel>, r: nat)
    ensures
        below_rank(list, windows, r).to_multiset() =~= windows.filter(
            |w: WindowModel| rank(list, w.title) < r,
        ).to_multiset(),
    decreases r,
{
    let less = |w: WindowModel| rank(list, w.title) < r;
    if r == 0 {
        assert forall|w: WindowModel| !#[trigger] less(w) by {
            lemma_rank_bounds(list, w.title);
        }
        lemma_filter_nothing(windows, less);
    } else {
        let before = |w: WindowModel| rank(list, w.title) < (r - 1) as nat;
        let here = |w: WindowModel| rank(list, w.title) == r - 1;
        lemma_below_rank(list, windows, (r - 1) as nat);
        lemma_split_multiset(windows, before, here, less);
        vstd::seq_lib::lemma_multiset_commutative(
            below_rank(list, windows, (r - 1) as nat),
            at_rank(list, windows, r - 1),
        );
    }
}

proof fn lemma_filter_nothing<A>(s: Seq<A>, pred: spec_fn(A) -> bool)
    requires
        forall|a: A| !#[trigger] pred(a),
    ensures
        s.filter(pred) == Seq::<A>::empty(),
    decreases s.len(),
{
    reveal(Seq::filter);
    if s.len() > 0 {
        lemma_filter_nothing(s.drop_last(), pred);
    }
}

proof fn lemma_filter_all<A>(s: Seq<A>, pred: spec_fn(A) -> bool)
    requires
        forall|a: A| #[trigger] pred(a),
    ensures
        s.filter(pred) == s,
    decreases s.len(),
{
    reveal(Seq::filter);
    if s.len() > 0 {
        lemma_filter_all(s.drop_last(), pred);
        assert(s =~= s.drop_last().push(s.last()));
    }
}

/// Putting the windows in order loses none and adds none.
pub proof fn law_ordering_keeps_every_window(m: CycleModel)
    ensures
        ordered(m).to_multiset() == m.windows.to_multiset(),
        ordered(m).len() == m.windows.len(),
{
    broadcast use vstd::seq_lib::group_to_multiset_ensures;

    if let Some(list) = m.order {
        lemma_below_rank(list, m.windows, list.len() + 1);
        let all = |w: WindowModel| rank(list, w.title) < list.len() + 1;
        assert forall|w: WindowModel| #[trigger] all(w) by {
            lemma_rank_bounds(list, w.title);
        }
        lemma_filter_all(m.windows, all);
    }
    ordered(m).to_multiset_ensures();
    m.windows.to_multiset_ensures();
}

/// The place `k` steps after (or before) `c` on a ring of `n` places.
spec fn along(c: int, k: int, forward: bool, n: int) -> int {
    if forward {
        if c + k < n {
            c + k
        } else {
            c + k - n
        }
    } else {
        if c - k >= 0 {
            c - k
        } else {
            c - k + n
        }
    }
}

proof fn lemma_seek(flags: Seq<bool>, c: int, forward: bool, k: nat, left: nat)
    requires
        0 <= c < flags.len(),
        k + left == flags.len(),
    ensures
        match seek(flags, along(c, k as int, forward, flags.len() as int), forward, left) {
            Some(d) => exists|j: int|
                #![trigger along(c, j, forward, flags.len() as int)]
                k < j <= flags.len() && d == along(c, j, forward, flags.len() as int) && flags[d]
                    && (forall|i: int|
                    k < i < j ==> !flags[#[trigger] along(c, i, forward, flags.len() as int)]),
            None => forall|i: int|
                k < i <= flags.len() ==> !flags[#[trigger] along(
                    c,
                    i,
                    forward,
                    flags.len() as int,
                )],
        },
    decreases left,
{
    let n = flags.len() as int;
    if left > 0 {
        let i = along(c, (k + 1) as int, forward, n);
        assert(neighbour(along(c, k as int, forward, n), forward, n) == i);
        if !flags[i] {
            lemma_seek(flags, c, forward, k + 1, (left - 1) as nat);
        }
    }
}

proof fn lemma_seek_home(flags: Seq<bool>, c: int, forward: bool, k: int, left: nat)
    requires
        0 <= c < flags.len(),
        1 <= k <= flags.len(),
        k <= left,
        flags[c],
        forall|i: int| 0 < i < k ==> !flags[#[trigger] along(c, i, forward, flags.len() as int)],
    ensures
        seek(flags, along(c, k, forward, flags.len() as int), !forward, left) == Some(c),
    decreases k,
{
    let n = flags.len() as int;
    let i = along(c, k - 1, forward, n);
    assert(neighbour(along(c, k, forward, n), !forward, n) == i);
    if k > 1 {
        assert(!flags[i]);
        lemma_seek_home(flags, c, forward, k - 1, (left - 1) as nat);
    }
}

proof fn lemma_seek_stops(flags: Seq<bool>, from: int, forward: bool, left: nat)
    requires
        0 <= from < flags.len(),
    ensures
        seek(flags, from, forward, left) matches Some(i) ==> 0 <= i < flags.len() && flags[i],
    decreases left,
{
    if left > 0 {
        let i = neighbour(from, forward, flags.len() as int);
        if !flags[i] {
            lemma_seek_stops(flags, i, forward, (left - 1) as nat);
        }
    }
}

proof fn lemma_spot(windows: Seq<WindowModel>, id: u32)
    ensures
        match spot(windows, id) {
            Some(i) => 0 <= i < windows.len() && windows[i].id == id,
            None => forall|i: int| 0 <= i < windows.len() ==> (#[trigger] windows[i]).id != id,
        },
    decreases windows.len(),
{
    if windows.len() > 0 && windows.first().id != id {
        lemma_spot(windows.drop_first(), id);
        if spot(windows, id) is None {
            assert forall|i: int| 0 <= i < windows.len() implies (#[trigger] windows[i]).id
                != id by {
                if i > 0 {
                    assert(windows.drop_first()[i - 1] == windows[i]);
                }
            }
        }
    }
}

proof fn lemma_step_from(m: CycleModel, forward: bool)
    requires
        ordered(m).len() > 0,
    ensures
        0 <= step_from(m, forward) < ordered(m).len(),
{
    if let Some(id) = m.current {
        lemma_spot(ordered(m), id);
    }
}

/// A step, forward or backward, never goes to a character that is out of the
/// cycle, and it goes somewhere as long as one client is in the cycle.
pub proof fn law_steps_skip_scouts(m: CycleModel, forward: bool)
    ensures
        step_to(m, forward) matches Some(id) ==> exists|i: int|
            0 <= i < ordered(m).len() && (#[trigger] ordered(m)[i]).id == id && in_cycle(
                m,
                ordered(m)[i].title,
            ),
        step_to(m, forward) is None ==> forall|i: int|
            0 <= i < ordered(m).len() ==> !in_cycle(m, (#[trigger] ordered(m)[i]).title),
{
    let n = ordered(m).len();
    if n > 0 {
        let from = step_from(m, forward);
        lemma_step_from(m, forward);
        lemma_seek_stops(stops(m), from, forward, n);
        match seek(stops(m), from, forward, n) {
            Some(i) => {
                assert(ordered(m)[i].id == step_to(m, forward)->0);
            },
            None => {
                assert forall|i: int| 0 <= i < n implies !in_cycle(
                    m,
                    (#[trigger] ordered(m)[i]).title,
                ) by {
                    lemma_seek(stops(m), from, forward, 0, n);
                    let there = if forward {
                        i - from
                    } else {
                        from - i
                    };
                    let k = if there > 0 {
                        there
                    } else {
                        there + n
                    };
                    assert(along(from, k, forward, n as int) == i);
                    assert(!stops(m)[i]);
                }
            },
        }
    }
}

/// A step backward takes a step forward back, and a step forward takes a step
/// backward back, when the client it started from is in the cycle. Window
/// numbers are those of different windows.
pub proof fn law_steps_are_taken_back(m: CycleModel, c: int, forward: bool)
    requires
        0 <= c < ordered(m).len(),
        m.current == Some(ordered(m)[c].id),
        in_cycle(m, ordered(m)[c].title),
        forall|i: int, j: int|
            0 <= i < ordered(m).len() && 0 <= j < ordered(m).len() && (#[trigger] ordered(m)[i]).id
                == (#[trigger] ordered(m)[j]).id ==> i == j,
    ensures
        gone_to(
            gone_to(m, step_to(m, forward)),
            step_to(gone_to(m, step_to(m, forward)), !forward),
        ) == m,
{
    let n = ordered(m).len();
    let flags = stops(m);
    lemma_spot(ordered(m), ordered(m)[c].id);
    assert(step_from(m, forward) == c);
    lemma_seek(flags, c, forward, 0, n);
    assert(along(c, 0, forward, n as int) == c);
    assert(along(c, n as int, forward, n as int) == c);
    assert(flags[c]);
    assert(seek(flags, c, forward, n) is Some);
    let d = seek(flags, c, forward, n)->0;
    let k = choose|j: int|
        #![trigger along(c, j, forward, n as int)]
        0 < j <= n && d == along(c, j, forward, n as int) && flags[d] && (forall|i: int|
            0 < i < j ==> !flags[#[trigger] along(c, i, forward, n as int)]);
    let after = gone_to(m, step_to(m, forward));
    assert(ordered(after) == ordered(m));
    assert(stops(after) =~= flags);
    lemma_spot(ordered(m), ordered(m)[d].id);
    assert(step_from(after, !forward) == d);
    lemma_seek_home(flags, c, forward, k, n);
    assert(step_to(after, !forward) == Some(ordered(m)[c].id));
}

/// A window that is none of the clients does not move the place in the cycle,
/// so a step after it goes on from the client that had the focus last.
pub proof fn law_other_windows_keep_the_place(m: CycleModel, client: u32, other: u32)
    requires
        spot(m.windows, client) is Some,
        spot(m.windows, other) is None,
    ensures
        synced(synced(m, client), other).current == Some(client),
{
}

/// The client that gets the focus is never the one that is minimized, and
/// nothing is minimized unless it was asked for.
pub proof fn law_focus_is_not_minimized(m: CycleModel, to: Option<u32>, minimize_inactive: bool)
    ensures
        moves_to(m, to, minimize_inactive).minimize is Some ==> minimize_inactive && moves_to(
            m,
            to,
            minimize_inactive,
        ).minimize != to,
        moves_to(m, to, minimize_inactive).activate == to,
{
}

/// A jump by number goes by the place on the list, whether the character is in
/// the cycle or not.
pub proof fn law_jumps_ignore_the_cycle(
    windows: Seq<WindowModel>,
    list: Seq<CharacterModel>,
    other: Seq<CharacterModel>,
    target: usize,
)
    requires
        list.len() == other.len(),
        forall|i: int| 0 <= i < list.len() ==> (#[trigger] list[i]).name == other[i].name,
    ensures
        numbered(windows, Some(list), target) == numbered(windows, Some(other), target),
{
    if 1 <= target <= list.len() {
        assert(list[target - 1].name == other[target - 1].name);
    }
}

/// What is done to the clients.
#[derive(Debug, Clone, Copy, PartialEq, Eq, Structural)]
pub enum CycleOp {
    Forward,
    Backward,
    /// Jump to a client by its number, counted from one.
    Switch(usize),
}

/// The list that cycling goes by: none when the configuration has an empty
/// one.
pub open spec fn cycle_list(c: ConfigModel) -> Option<Seq<CharacterModel>> {
    if c.characters.len() == 0 {
        None
    } else {
        Some(c.characters)
    }
}

/// The state that one command by itself starts from.
pub open spec fn fresh_cycle(
    windows: Seq<WindowModel>,
    active: Option<u32>,
    c: ConfigModel,
) -> CycleModel {
    let m = CycleModel { order: cycle_list(c), windows, current: None };
    match active {
        Some(id) => synced(m, id),
        None => m,
    }
}

/// The client that an operation goes to.
pub open spec fn goal(m: CycleModel, op: CycleOp) -> Option<u32> {
    match op {
        CycleOp::Forward => step_to(m, true),
        CycleOp::Backward => step_to(m, false),
        CycleOp::Switch(target) => numbered(m.windows, m.order, target),
    }
}

/// One command by itself: the windows that run, the one that has the focus if
/// the desktop tells it, and the configuration decide what is done.
pub fn run_cycle_direct(
    windows: Vec<EveWindow>,
    active: Option<u32>,
    config: &Config,
    op: CycleOp,
) -> (r: CycleStep)
    ensures
        r == moves_to(
            fresh_cycle(windows_of(windows@), active, config@),
            goal(fresh_cycle(windows_of(windows@), active, config@), op),
            config.minimize_inactive,
        ),
{
    let ghost all = windows_of(windows@);
    if windows.len() == 0 {
        proof {
            let m = fresh_cycle(all, active, config@);
            law_ordering_keeps_every_window(m);
        }
        return CycleStep { activate: None, minimize: None };
    }
    let order: Option<Vec<CharacterEntry>> = cycle_order(config);
    let again: Option<Vec<CharacterEntry>> = cycle_order(config);
    let mut state: CycleState = CycleState::new();
    state.set_character_order(order);
    state.update_windows(windows);
    if let Some(id) = active {
        state.sync_with_active(id);
    }
    assert(state@ =~= fresh_cycle(all, active, config@));
    match op {
        CycleOp::Forward => state.cycle_forward(config.minimize_inactive),
        CycleOp::Backward => state.cycle_backward(config.minimize_inactive),
        CycleOp::Switch(target) => state.switch_to(target, config.minimize_inactive, &again),
    }
}

/// The list that cycling goes by.
pub fn cycle_order(config: &Config) -> (r: Option<Vec<CharacterEntry>>)
    ensures
        order_of(r) == cycle_list(config@),
{
    if config.characters.len() == 0 {
        None
    } else {
        let list: Vec<CharacterEntry> = config.characters.clone();
        assert(roster(list@) =~= roster(config.characters@));
        Some(list)
    }
}

/// The place that a step goes to, counted along the ring from where it starts.
proof fn lemma_step_place(m: CycleModel, forward: bool) -> (r: (int, int))
    requires
        step_to(m, forward) is Some,
    ensures
        ({
            let n = ordered(m).len() as int;
            let from = step_from(m, forward);
            let (d, k) = r;
            &&& 0 <= from < n
            &&& 0 < k <= n
            &&& d == along(from, k, forward, n)
            &&& 0 <= d < n
            &&& ordered(m)[d].id == step_to(m, forward)->0
            &&& in_cycle(m, ordered(m)[d].title)
            &&& forall|i: int|
                0 < i < k ==> !in_cycle(
                    m,
                    ordered(m)[#[trigger] along(from, i, forward, n)].title,
                )
        }),
{
    let n = ordered(m).len();
    let from = step_from(m, forward);
    let flags = stops(m);
    lemma_step_from(m, forward);
    lemma_seek(flags, from, forward, 0, n);
    assert(along(from, 0, forward, n as int) == from);
    let d = seek(flags, from, forward, n)->0;
    let k = choose|j: int|
        #![trigger along(from, j, forward, n as int)]
        0 < j <= n && d == along(from, j, forward, n as int) && flags[d] && (forall|i: int|
            0 < i < j ==> !flags[#[trigger] along(from, i, forward, n as int)]);
    assert forall|i: int| 0 < i < k implies !in_cycle(
        m,
        ordered(m)[#[trigger] along(from, i, forward, n as int)].title,
    ) by {
        assert(!flags[along(from, i, forward, n as int)]);
    }
    (d, k)
}

/// Where a step goes when the client that had the focus last stands at place `c`
/// of the order. Forward it goes to the first client of the cycle behind `c`,
/// and to the first one of all only when there is none behind; backward it goes
/// to the last one in front of `c`, and to the last one of all only when there
/// is none in front.
pub proof fn law_steps_go_to_the_nearest_client(m: CycleModel, c: int)
    requires
        0 <= c < ordered(m).len(),
        m.current == Some(ordered(m)[c].id),
        forall|j: int| 0 <= j < c ==> (#[trigger] ordered(m)[j]).id != ordered(m)[c].id,
    ensures
        step_to(m, true) matches Some(id) ==> exists|d: int|
            0 <= d < ordered(m).len() && (#[trigger] ordered(m)[d]).id == id && in_cycle(
                m,
                ordered(m)[d].title,
            ) && (d > c ==> forall|j: int|
                c < j < d ==> !in_cycle(m, (#[trigger] ordered(m)[j]).title)) && (d <= c
                ==> forall|j: int|
                0 <= j < d || c < j < ordered(m).len() ==> !in_cycle(
                    m,
                    (#[trigger] ordered(m)[j]).title,
                )),
        step_to(m, false) matches Some(id) ==> exists|d: int|
            0 <= d < ordered(m).len() && (#[trigger] ordered(m)[d]).id == id && in_cycle(
                m,
                ordered(m)[d].title,
            ) && (d < c ==> forall|j: int|
                d < j < c ==> !in_cycle(m, (#[trigger] ordered(m)[j]).title)) && (d >= c
                ==> forall|j: int|
                0 <= j < c || d < j < ordered(m).len() ==> !in_cycle(
                    m,
                    (#[trigger] ordered(m)[j]).title,
                )),
        c + 1 < ordered(m).len() && in_cycle(m, ordered(m)[c + 1].title) ==> step_to(m, true)
            == Some(ordered(m)[c + 1].id),
        c > 0 && in_cycle(m, ordered(m)[c - 1].title) ==> step_to(m, false) == Some(
            ordered(m)[c - 1].id,
        ),
{
    let n = ordered(m).len() as int;
    lemma_spot(ordered(m), ordered(m)[c].id);
    lemma_first_spot(ordered(m), c);
    if step_to(m, true) is Some {
        let (d, k) = lemma_step_place(m, true);
        assert forall|j: int| c < j < n && (j < d || d <= c) implies !in_cycle(
            m,
            (#[trigger] ordered(m)[j]).title,
        ) by {
            assert(along(c, j - c, true, n) == j);
        }
        assert forall|j: int| 0 <= j < d && d <= c implies !in_cycle(
            m,
            (#[trigger] ordered(m)[j]).title,
        ) by {
            assert(along(c, j - c + n, true, n) == j);
        }
        assert(ordered(m)[d].id == step_to(m, true)->0);
    }
    if step_to(m, false) is Some {
        let (d, k) = lemma_step_place(m, false);
        assert forall|j: int| 0 <= j < c && (j > d || d >= c) implies !in_cycle(
            m,
            (#[trigger] ordered(m)[j]).title,
        ) by {
            assert(along(c, c - j, false, n) == j);
        }
        assert forall|j: int| d < j < n && d >= c implies !in_cycle(
            m,
            (#[trigger] ordered(m)[j]).title,
        ) by {
            assert(along(c, c - j + n, false, n) == j);
        }
        assert(ordered(m)[d].id == step_to(m, false)->0);
    }
    if c + 1 < n && in_cycle(m, ordered(m)[c + 1].title) {
        law_steps_skip_scouts(m, true);
        assert(ordered(m)[c + 1].title == ordered(m)[c + 1].title);
        let (d, k) = lemma_step_place(m, true);
        assert(along(c, 1, true, n) == c + 1);
    }
    if c > 0 && in_cycle(m, ordered(m)[c - 1].title) {
        law_steps_skip_scouts(m, false);
        assert(ordered(m)[c - 1].title == ordered(m)[c - 1].title);
        let (d, k) = lemma_step_place(m, false);
        assert(along(c, 1, false, n) == c - 1);
    }
}

proof fn lemma_first_spot(windows: Seq<WindowModel>, c: int)
    requires
        0 <= c < windows.len(),
        forall|j: int| 0 <= j < c ==> (#[trigger] windows[j]).id != windows[c].id,
    ensures
        spot(windows, windows[c].id) == Some(c),
    decreases windows.len(),
{
    if c > 0 {
        let rest = windows.drop_first();
        assert(windows.first() == windows[0]);
        assert(rest[c - 1] == windows[c]);
        assert forall|j: int| 0 <= j < c - 1 implies (#[trigger] rest[j]).id != rest[c - 1].id by {
            assert(rest[j] == windows[j + 1]);
        }
        lemma_first_spot(rest, c - 1);
    }
}

/// Where a step goes when no client had the focus yet, or one that is gone:
/// forward to the first client of the cycle, backward to the last.
pub proof fn law_first_steps_start_at_the_ends(m: CycleModel)
    requires
        m.current matches Some(id) ==> forall|j: int|
            0 <= j < ordered(m).len() ==> (#[trigger] ordered(m)[j]).id != id,
    ensures
        step_to(m, true) matches Some(id) ==> exists|d: int|
            0 <= d < ordered(m).len() && (#[trigger] ordered(m)[d]).id == id && in_cycle(
                m,
                ordered(m)[d].title,
            ) && forall|j: int| 0 <= j < d ==> !in_cycle(m, (#[trigger] ordered(m)[j]).title),
        step_to(m, false) matches Some(id) ==> exists|d: int|
            0 <= d < ordered(m).len() && (#[trigger] ordered(m)[d]).id == id && in_cycle(
                m,
                ordered(m)[d].title,
            ) && forall|j: int|
                d < j < ordered(m).len() ==> !in_cycle(m, (#[trigger] ordered(m)[j]).title),
{
    let n = ordered(m).len() as int;
    if let Some(id) = m.current {
        lemma_spot(ordered(m), id);
    }
    if step_to(m, true) is Some {
        let (d, k) = lemma_step_place(m, true);
        assert forall|j: int| 0 <= j < d implies !in_cycle(
            m,
            (#[trigger] ordered(m)[j]).title,
        ) by {
            assert(along(n - 1, j + 1, true, n) == j);
        }
        assert(ordered(m)[d].id == step_to(m, true)->0);
    }
    if step_to(m, false) is Some {
        let (d, k) = lemma_step_place(m, false);
        assert forall|j: int| d < j < n implies !in_cycle(
            m,
            (#[trigger] ordered(m)[j]).title,
        ) by {
            assert(along(0, n - j, false, n) == j);
        }
        assert(ordered(m)[d].id == step_to(m, false)->0);
    }
}

/// Without a list cycling stops at every window; with one it stops at the
/// titles on the list whose first entry says so, and at no other.
pub proof fn law_the_list_says_who_is_in_the_cycle(m: CycleModel, title: Seq<char>)
    ensures
        m.order is None ==> in_cycle(m, title),
        m.order matches Some(list) ==> (in_cycle(m, title) <==> exists|p: int|
            0 <= p < list.len() && (#[trigger] list[p]).name == title && list[p].in_cycle && forall|
                q: int,
            |
                0 <= q < p ==> (#[trigger] list[q]).name != title),
{
    if let Some(list) = m.order {
        lemma_rank_bounds(list, title);
        if in_cycle(m, title) {
            assert(list[rank(list, title)].name == title);
        }
        if exists|p: int|
            0 <= p < list.len() && (#[trigger] list[p]).name == title && list[p].in_cycle && forall|
                q: int,
            |
                0 <= q < p ==> (#[trigger] list[q]).name != title {
            let p = choose|p: int|
                0 <= p < list.len() && (#[trigger] list[p]).name == title && list[p].in_cycle
                    && forall|q: int| 0 <= q < p ==> (#[trigger] list[q]).name != title;
            lemma_rank_found(list, title, p);
        }
    }
}

proof fn lemma_filter_twice<A>(
    s: Seq<A>,
    p: spec_fn(A) -> bool,
    q: spec_fn(A) -> bool,
    both: spec_fn(A) -> bool,
)
    requires
        forall|a: A| #[trigger] both(a) == (p(a) && q(a)),
    ensures
        s.filter(p).filter(q) == s.filter(both),
    decreases s.len(),
{
    reveal(Seq::filter);
    if s.len() > 0 {
        let rest = s.drop_last();
        lemma_filter_twice(rest, p, q, both);
        lemma_filter_push(rest.filter(p), q, s.last());
    }
}

/// The windows of one rank stand together, in the order in which they were
/// found.
proof fn lemma_ranks_apart(
    list: Seq<CharacterModel>,
    windows: Seq<WindowModel>,
    r: nat,
    k: int,
    p: spec_fn(WindowModel) -> bool,
)
    requires
        0 <= k,
        forall|w: WindowModel| #[trigger] p(w) ==> rank(list, w.title) == k,
    ensures
        below_rank(list, windows, r).filter(p) == if k < r {
            windows.filter(p)
        } else {
            Seq::empty()
        },
    decreases r,
{
    if r == 0 {
        reveal(Seq::filter);
    } else {
        let before = below_rank(list, windows, (r - 1) as nat);
        let here = at_rank(list, windows, r - 1);
        let at = |w: WindowModel| rank(list, w.title) == r - 1;
        let both = |w: WindowModel| at(w) && p(w);
        lemma_ranks_apart(list, windows, (r - 1) as nat, k, p);
        Seq::filter_distributes_over_add(before, here, p);
        lemma_filter_twice(windows, at, p, both);
        if k == r - 1 {
            lemma_filter_same(windows, both, p);
            assert(Seq::empty() + windows.filter(p) =~= windows.filter(p));
        } else {
            lemma_filter_nothing(windows, both);
            assert(before.filter(p) + Seq::empty() =~= before.filter(p));
        }
    }
}

proof fn lemma_filter_same<A>(s: Seq<A>, p: spec_fn(A) -> bool, q: spec_fn(A) -> bool)
    requires
        forall|a: A| #[trigger] p(a) == q(a),
    ensures
        s.filter(p) == s.filter(q),
    decreases s.len(),
{
    reveal(Seq::filter);
    if s.len() > 0 {
        lemma_filter_same(s.drop_last(), p, q);
    }
}

proof fn lemma_below_rank_sorted(list: Seq<CharacterModel>, windows: Seq<WindowModel>, r: nat)
    ensures
        forall|i: int|
            0 <= i < below_rank(list, windows, r).len() ==> rank(
                list,
                (#[trigger] below_rank(list, windows, r)[i]).title,
            ) < r,
        forall|i: int, j: int|
            0 <= i < j < below_rank(list, windows, r).len() ==> rank(
                list,
                (#[trigger] below_rank(list, windows, r)[i]).title,
            ) <= rank(list, (#[trigger] below_rank(list, windows, r)[j]).title),
    decreases r,
{
    if r > 0 {
        lemma_below_rank_sorted(list, windows, (r - 1) as nat);
        let before = below_rank(list, windows, (r - 1) as nat);
        let here = at_rank(list, windows, r - 1);
        let at = |w: WindowModel| rank(list, w.title) == r - 1;
        let all = below_rank(list, windows, r);
        assert forall|i: int| 0 <= i < here.len() implies rank(list, (#[trigger] here[i]).title)
            == r - 1 by {
            windows.lemma_filter_pred(at, i);
        }
        assert forall|i: int| 0 <= i < all.len() implies rank(list, (#[trigger] all[i]).title)
            < r by {
            if i < before.len() {
                assert(all[i] == before[i]);
            } else {
                assert(all[i] == here[i - before.len()]);
            }
        }
        assert forall|i: int, j: int| 0 <= i < j < all.len() implies rank(
            list,
            (#[trigger] all[i]).title,
        ) <= rank(list, (#[trigger] all[j]).title) by {
            if j < before.len() {
                assert(all[i] == before[i]);
                assert(all[j] == before[j]);
            } else {
                assert(all[j] == here[j - before.len()]);
            }
        }
    }
}

/// With a list, windows stand in the order of the list: whenever one stands in
/// front of another whose title is on the list, its own title is on the list at
/// least as far in front. Windows of one title, and windows that are not on the
/// list, keep the order in which they were found; without a list all do.
pub proof fn law_windows_stand_in_the_order_of_the_list(m: CycleModel, title: Seq<char>)
    ensures
        m.order is None ==> ordered(m) == m.windows,
        m.order matches Some(list) ==> forall|i: int, j: int, p: int|
            #![trigger ordered(m)[i], ordered(m)[j], list[p]]
            0 <= i < j < ordered(m).len() && 0 <= p < list.len() && list[p].name == ordered(
                m,
            )[j].title ==> exists|q: int|
                0 <= q <= p && (#[trigger] list[q]).name == ordered(m)[i].title,
        ordered(m).filter(|w: WindowModel| w.title == title) == m.windows.filter(
            |w: WindowModel| w.title == title,
        ),
        m.order matches Some(list) ==> ordered(m).filter(
            |w: WindowModel| forall|p: int| 0 <= p < list.len()
                ==> (#[trigger] list[p]).name != w.title,
        ) == m.windows.filter(
            |w: WindowModel| forall|p: int| 0 <= p < list.len()
                ==> (#[trigger] list[p]).name != w.title,
        ),
{
    if let Some(list) = m.order {
        let n = list.len();
        lemma_below_rank_sorted(list, m.windows, n + 1);
        assert forall|i: int, j: int, p: int|
            #![trigger ordered(m)[i], ordered(m)[j], list[p]]
            0 <= i < j < ordered(m).len() && 0 <= p < list.len() && list[p].name == ordered(
                m,
            )[j].title implies exists|q: int|
            0 <= q <= p && (#[trigger] list[q]).name == ordered(m)[i].title by {
            let first = ordered(m)[i].title;
            let second = ordered(m)[j].title;
            lemma_rank_bounds(list, first);
            lemma_rank_bounds(list, second);
            assert(below_rank(list, m.windows, n + 1)[i].title == first);
            assert(below_rank(list, m.windows, n + 1)[j].title == second);
            assert(rank(list, second) <= p);
            assert(list[rank(list, first)].name == first);
        }
        let named = |w: WindowModel| w.title == title;
        lemma_rank_bounds(list, title);
        lemma_ranks_apart(list, m.windows, n + 1, rank(list, title), named);
        let unlisted = |w: WindowModel|
            forall|p: int| 0 <= p < list.len() ==> (#[trigger] list[p]).name != w.title;
        assert forall|w: WindowModel| #[trigger] unlisted(w) implies rank(list, w.title) == n by {
            lemma_rank_bounds(list, w.title);
        }
        lemma_ranks_apart(list, m.windows, n + 1, n as int, unlisted);
    }
}

/// A number stands for the window found at that place, counted from one, or,
/// with a list, for the first window found with the name at that place of the
/// list. Other numbers stand for nothing.
pub proof fn law_numbers_count_from_one(
    windows: Seq<WindowModel>,
    list: Seq<CharacterModel>,
    target: usize,
)
    ensures
        numbered(windows, None, target) == if 1 <= target <= windows.len() {
            Some(windows[target - 1].id)
        } else {
            None
        },
        !(1 <= target <= list.len()) ==> numbered(windows, Some(list), target) is None,
        1 <= target <= list.len() ==> match numbered(windows, Some(list), target) {
            Some(id) => exists|d: int|
                0 <= d < windows.len() && (#[trigger] windows[d]).id == id && windows[d].title
                    == list[target - 1].name && forall|j: int|
                    0 <= j < d ==> (#[trigger] windows[j]).title != list[target - 1].name,
            None => forall|d: int|
                0 <= d < windows.len() ==> (#[trigger] windows[d]).title != list[target - 1].name,
        },
{
    if 1 <= target <= list.len() {
        lemma_titled(windows, list[target - 1].name);
    }
}

proof fn lemma_titled(windows: Seq<WindowModel>, title: Seq<char>)
    ensures
        match titled(windows, title) {
            Some(id) => exists|d: int|
                0 <= d < windows.len() && (#[trigger] windows[d]).id == id && windows[d].title
                    == title && forall|j: int|
                    0 <= j < d ==> (#[trigger] windows[j]).title != title,
            None => forall|d: int|
                0 <= d < windows.len() ==> (#[trigger] windows[d]).title != title,
        },
    decreases windows.len(),
{
    if windows.len() > 0 {
        let rest = windows.drop_first();
        assert(windows.first() == windows[0]);
        if windows[0].title != title {
            lemma_titled(rest, title);
            match titled(rest, title) {
                Some(id) => {
                    let d = choose|d: int|
                        0 <= d < rest.len() && (#[trigger] rest[d]).id == id && rest[d].title
                            == title && forall|j: int|
                            0 <= j < d ==> (#[trigger] rest[j]).title != title;
                    assert(windows[d + 1] == rest[d]);
                    assert forall|j: int| 0 <= j < d + 1 implies (#[trigger] windows[j]).title
                        != title by {
                        if j > 0 {
                            assert(windows[j] == rest[j - 1]);
                        }
                    }
                },
                None => {
                    assert forall|d: int| 0 <= d < windows.len() implies (
                    #[trigger] windows[d]).title != title by {
                        if d > 0 {
                            assert(windows[d] == rest[d - 1]);
                        }
                    }
                },
            }
        }
    }
}

/// Going to a client gives it the focus and remembers it, and changes nothing
/// else of the cycle; where there is no client to go to, nothing happens. The
/// client that is left is minimized if that is asked for, if it is another one
/// and if it still runs.
pub proof fn law_going_to_a_client(m: CycleModel, id: u32, minimize_inactive: bool)
    ensures
        moves_to(m, Some(id), minimize_inactive).activate == Some(id),
        moves_to(m, None, minimize_inactive) == (CycleStep { activate: None, minimize: None }),
        gone_to(m, None) == m,
        gone_to(m, Some(id)).current == Some(id),
        gone_to(m, Some(id)).order == m.order,
        gone_to(m, Some(id)).windows == m.windows,
        forall|left: u32|
            moves_to(m, Some(id), minimize_inactive).minimize == Some(left) <==> minimize_inactive
                && m.current == Some(left) && left != id && exists|i: int|
                0 <= i < m.windows.len() && (#[trigger] m.windows[i]).id == left,
{
    if let Some(left) = m.current {
        lemma_spot(m.windows, left);
        if let Some(i) = spot(m.windows, left) {
            assert(m.windows[i].id == left);
        }
    }
}

/// A window that gets the focus is where cycling goes on from if it is that of a
/// client, and is ignored otherwise; nothing else of the cycle changes.
pub proof fn law_the_focus_is_followed(m: CycleModel, active: u32)
    ensures
        synced(m, active).order == m.order,
        synced(m, active).windows == m.windows,
        (exists|i: int| 0 <= i < m.windows.len() && (#[trigger] m.windows[i]).id == active)
            ==> synced(m, active).current == Some(active),
        !(exists|i: int| 0 <= i < m.windows.len() && (#[trigger] m.windows[i]).id == active)
            ==> synced(m, active).current == m.current,
{
    lemma_spot(m.windows, active);
    if let Some(i) = spot(m.windows, active) {
        assert(m.windows[i].id == active);
    }
}

/// One command by itself goes by the windows that run and by the list of the
/// configuration, if that is not empty, and starts from the window that has the
/// focus, if that is one of them.
pub proof fn law_one_command_starts_afresh(
    windows: Seq<WindowModel>,
    active: Option<u32>,
    c: ConfigModel,
    target: usize,
)
    ensures
        ({
            let m = fresh_cycle(windows, active, c);
            &&& m.windows == windows
            &&& c.characters.len() == 0 ==> m.order is None
            &&& c.characters.len() > 0 ==> m.order == Some(c.characters)
            &&& m.current matches Some(id) ==> active == Some(id) && exists|i: int|
                0 <= i < windows.len() && (#[trigger] windows[i]).id == id
            &&& m.current is None ==> forall|i: int|
                0 <= i < windows.len() ==> Some((#[trigger] windows[i]).id) != active
            &&& goal(m, CycleOp::Forward) == step_to(m, true)
            &&& goal(m, CycleOp::Backward) == step_to(m, false)
            &&& goal(m, CycleOp::Switch(target)) == numbered(windows, m.order, target)
        }),
{
    if let Some(id) = active {
        lemma_spot(windows, id);
        if let Some(i) = spot(windows, id) {
            assert(windows[i].id == id);
        }
    }
}

/// A list that may be there holds its characters, if it is there.
pub proof fn law_lists_that_may_be_there(order: Option<Vec<CharacterEntry>>, i: int)
    ensures
        order is None <==> order_of(order) is None,
        order matches Some(list) ==> order_of(order)->0.len() == list@.len() && (0 <= i
            < list@.len() ==> order_of(order)->0[i].name == list@[i].name@ && order_of(
            order,
        )->0[i].in_cycle == list@[i].in_cycle),
{
}

} // verus!
