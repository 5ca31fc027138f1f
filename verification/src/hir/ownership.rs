//! Ownership states of local variables, as the ownership pass tracks them through a
//! function body, and the types whose values it deletes or copies implicitly.
use vstd::prelude::*;
use crate::text::str_eq;
use crate::utils::Span;
use crate::hir::keyed::{find_key, has_key, lookup};
use crate::hir::ty::{tys_view, HirTy, TyV};
use crate::hir::signature::{HirModuleSignature, HirStructSignature};
use crate::text::{has_prefix, starts_with};
use vstd::string::StringExecFns;

verus! {

/// Two spans are the same place: same offsets in the same file.
pub open spec fn span_same(a: Span, b: Span) -> bool {
    a.start == b.start && a.end == b.end && a.path@ == b.path@
}

/// Some span of `s` is the same place as `x`.
pub open spec fn spans_contain(s: Seq<Span>, x: Span) -> bool {
    exists|i: int| 0 <= i < s.len() && span_same(#[trigger] s[i], x)
}

/// `a` followed by the spans of `b` that are not there yet, in order.
pub open spec fn combined(a: Seq<Span>, b: Seq<Span>) -> Seq<Span>
    decreases b.len(),
{
    if b.len() == 0 {
        a
    } else {
        combined(if spans_contain(a, b[0]) { a } else { a.push(b[0]) }, b.drop_first())
    }
}

/// Whether two spans are the same place.
pub fn span_eq(a: &Span, b: &Span) -> (r: bool)
    ensures
        r == span_same(*a, *b),
{
    a.start == b.start && a.end == b.end && str_eq(a.path, b.path)
}

fn spans_contains(s: &Vec<Span>, x: &Span) -> (r: bool)
    ensures
        r == spans_contain(s@, *x),
{
    let mut i: usize = 0;
    while i < s.len()
        invariant
            i <= s.len(),
            forall|q: int| 0 <= q < i ==> !span_same(#[trigger] s@[q], *x),
        decreases s.len() - i,
    {
        if span_eq(&s[i], x) {
            return true;
        }
        i = i + 1;
    }
    false
}

/// `a` followed by the spans of `b` that are not in it yet (see `combined`).
pub fn combine_spans(a: Vec<Span>, b: Vec<Span>) -> (r: Vec<Span>)
    ensures
        r@ == combined(a@, b@),
{
    let mut out = a;
    let mut i: usize = 0;
    proof {
        assert(b@.skip(0) =~= b@);
    }
    while i < b.len()
        invariant
            i <= b.len(),
            combined(out@, b@.skip(i as int)) == combined(a@, b@),
        decreases b.len() - i,
    {
        let x = b[i];
        proof {
            assert(b@.skip(i as int)[0] == x);
            assert(b@.skip(i as int).drop_first() =~= b@.skip(i + 1));
        }
        if !spans_contains(&out, &x) {
            out.push(x);
        }
        i = i + 1;
    }
    proof {
        assert(b@.skip(i as int) =~= Seq::<Span>::empty());
    }
    out
}

/// Copies of the spans.
fn copy_spans(s: &Vec<Span>) -> (r: Vec<Span>)
    ensures
        r@ == s@,
{
    let mut out: Vec<Span> = Vec::new();
    let mut i: usize = 0;
    while i < s.len()
        invariant
            i <= s.len(),
            out@ == s@.subrange(0, i as int),
        decreases s.len() - i,
    {
        out.push(s[i]);
        proof {
            assert(out@ =~= s@.subrange(0, i + 1));
        }
        i = i + 1;
    }
    proof {
        assert(s@.subrange(0, s.len() as int) =~= s@);
    }
    out
}

/// What may have happened to a local variable's value, with where it happened.
#[derive(Debug)]
pub enum OwnershipState {
    Alive,
    Deleted(Vec<Span>),
    Moved(Vec<Span>),
    Consumed(Vec<Span>),
    ConditionallyDeleted(Vec<Span>),
    ConditionallyMoved(Vec<Span>),
    ConditionallyConsumed(Vec<Span>),
}

/// The kinds of ownership state.
pub enum StateKind {
    Alive,
    Deleted,
    Moved,
    Consumed,
    ConditionallyDeleted,
    ConditionallyMoved,
    ConditionallyConsumed,
}

/// The model of a state: its kind and its spans (none for `Alive`).
pub open spec fn state_view(s: OwnershipState) -> (StateKind, Seq<Span>) {
    match s {
        OwnershipState::Alive => (StateKind::Alive, Seq::empty()),
        OwnershipState::Deleted(v) => (StateKind::Deleted, v@),
        OwnershipState::Moved(v) => (StateKind::Moved, v@),
        OwnershipState::Consumed(v) => (StateKind::Consumed, v@),
        OwnershipState::ConditionallyDeleted(v) => (StateKind::ConditionallyDeleted, v@),
        OwnershipState::ConditionallyMoved(v) => (StateKind::ConditionallyMoved, v@),
        OwnershipState::ConditionallyConsumed(v) => (StateKind::ConditionallyConsumed, v@),
    }
}

/// Two states are equal: same kind, and spans that are the same places in the same order.
pub open spec fn same_state(a: (StateKind, Seq<Span>), b: (StateKind, Seq<Span>)) -> bool {
    &&& a.0 == b.0
    &&& a.1.len() == b.1.len()
    &&& forall|i: int| 0 <= i < a.1.len() ==> span_same(#[trigger] a.1[i], b.1[i])
}

/// The state once it only may have happened: `None` for `Alive`.
pub open spec fn conditional(s: (StateKind, Seq<Span>)) -> Option<(StateKind, Seq<Span>)> {
    match s.0 {
        StateKind::Alive => None,
        StateKind::Deleted | StateKind::ConditionallyDeleted => Some((StateKind::ConditionallyDeleted, s.1)),
        StateKind::Moved | StateKind::ConditionallyMoved => Some((StateKind::ConditionallyMoved, s.1)),
        StateKind::Consumed | StateKind::ConditionallyConsumed => Some((StateKind::ConditionallyConsumed, s.1)),
    }
}

pub open spec fn delete_family(k: StateKind) -> bool {
    k is Deleted || k is ConditionallyDeleted
}

pub open spec fn move_family(k: StateKind) -> bool {
    k is Moved || k is ConditionallyMoved
}

/// The state after an `if`: the same state when both branches agree; when one branch
/// leaves the value alive, the other's state made conditional; when both delete (move),
/// `Deleted` (`Moved`) with the spans of both; otherwise `Consumed` with the spans of both.
pub open spec fn joined(
    base: (StateKind, Seq<Span>),
    t: (StateKind, Seq<Span>),
    e: (StateKind, Seq<Span>),
) -> (StateKind, Seq<Span>) {
    if same_state(t, e) {
        t
    } else if t.0 is Alive {
        match conditional(e) {
            Some(c) => c,
            None => base,
        }
    } else if e.0 is Alive {
        match conditional(t) {
            Some(c) => c,
            None => base,
        }
    } else if delete_family(t.0) && delete_family(e.0) {
        (StateKind::Deleted, combined(t.1, e.1))
    } else if move_family(t.0) && move_family(e.0) {
        (StateKind::Moved, combined(t.1, e.1))
    } else {
        (StateKind::Consumed, combined(t.1, e.1))
    }
}

impl OwnershipState {
    /// A copy of the state.
    pub fn duplicate(&self) -> (r: OwnershipState)
        ensures
            state_view(r) == state_view(*self),
    {
        match self {
            OwnershipState::Alive => OwnershipState::Alive,
            OwnershipState::Deleted(v) => OwnershipState::Deleted(copy_spans(v)),
            OwnershipState::Moved(v) => OwnershipState::Moved(copy_spans(v)),
            OwnershipState::Consumed(v) => OwnershipState::Consumed(copy_spans(v)),
            OwnershipState::ConditionallyDeleted(v) => OwnershipState::ConditionallyDeleted(copy_spans(v)),
            OwnershipState::ConditionallyMoved(v) => OwnershipState::ConditionallyMoved(copy_spans(v)),
            OwnershipState::ConditionallyConsumed(v) => OwnershipState::ConditionallyConsumed(copy_spans(v)),
        }
    }

    fn kind_code(&self) -> (r: u8)
        ensures
            r == kind_code(state_view(*self).0),
    {
        match self {
            OwnershipState::Alive => 0,
            OwnershipState::Deleted(_) => 1,
            OwnershipState::Moved(_) => 2,
            OwnershipState::Consumed(_) => 3,
            OwnershipState::ConditionallyDeleted(_) => 4,
            OwnershipState::ConditionallyMoved(_) => 5,
            OwnershipState::ConditionallyConsumed(_) => 6,
        }
    }

    /// Whether the two states are equal (see `same_state`).
    pub fn same_as(&self, other: &OwnershipState) -> (r: bool)
        ensures
            r == same_state(state_view(*self), state_view(*other)),
    {
        if self.kind_code() != other.kind_code() {
            proof {
                lemma_kind_code_injective(state_view(*self).0, state_view(*other).0);
            }
            return false;
        }
        proof {
            lemma_kind_code_injective(state_view(*self).0, state_view(*other).0);
        }
        let a = state_spans(self);
        let b = state_spans(other);
        if a.len() != b.len() {
            return false;
        }
        let mut i: usize = 0;
        while i < a.len()
            invariant
                i <= a.len(),
                a.len() == b.len(),
                a@ == state_view(*self).1,
                b@ == state_view(*other).1,
                forall|q: int| 0 <= q < i ==> span_same(#[trigger] a@[q], b@[q]),
            decreases a.len() - i,
        {
            if !span_eq(&a[i], &b[i]) {
                return false;
            }
            i = i + 1;
        }
        true
    }
}

pub open spec fn kind_code(k: StateKind) -> u8 {
    match k {
        StateKind::Alive => 0,
        StateKind::Deleted => 1,
        StateKind::Moved => 2,
        StateKind::Consumed => 3,
        StateKind::ConditionallyDeleted => 4,
        StateKind::ConditionallyMoved => 5,
        StateKind::ConditionallyConsumed => 6,
    }
}

proof fn lemma_kind_code_injective(a: StateKind, b: StateKind)
    ensures
        (kind_code(a) == kind_code(b)) == (a == b),
{
}

/// The spans of a state (none for `Alive`).
pub fn state_spans(state: &OwnershipState) -> (r: Vec<Span>)
    ensures
        r@ == state_view(*state).1,
{
    match state {
        OwnershipState::Alive => Vec::new(),
        OwnershipState::Deleted(v) | OwnershipState::Moved(v) | OwnershipState::Consumed(v)
        | OwnershipState::ConditionallyDeleted(v) | OwnershipState::ConditionallyMoved(v)
        | OwnershipState::ConditionallyConsumed(v) => copy_spans(v),
    }
}

/// Deleted, for sure or maybe.
pub fn is_delete_family(state: &OwnershipState) -> (b: bool)
    ensures
        b == delete_family(state_view(*state).0),
{
    match state {
        OwnershipState::Deleted(_) | OwnershipState::ConditionallyDeleted(_) => true,
        _ => false,
    }
}

/// Moved, for sure or maybe.
pub fn is_move_family(state: &OwnershipState) -> (b: bool)
    ensures
        b == move_family(state_view(*state).0),
{
    match state {
        OwnershipState::Moved(_) | OwnershipState::ConditionallyMoved(_) => true,
        _ => false,
    }
}

/// See `conditional`.
pub fn conditionalize_state(state: OwnershipState) -> (r: Option<OwnershipState>)
    ensures
        match conditional(state_view(state)) {
            Some(c) => r matches Some(s) && state_view(s) == c,
            None => r is None,
        },
{
    match state {
        OwnershipState::Alive => None,
        OwnershipState::Deleted(spans) => Some(OwnershipState::ConditionallyDeleted(spans)),
        OwnershipState::ConditionallyDeleted(spans) => Some(OwnershipState::ConditionallyDeleted(spans)),
        OwnershipState::Moved(spans) => Some(OwnershipState::ConditionallyMoved(spans)),
        OwnershipState::ConditionallyMoved(spans) => Some(OwnershipState::ConditionallyMoved(spans)),
        OwnershipState::Consumed(spans) => Some(OwnershipState::ConditionallyConsumed(spans)),
        OwnershipState::ConditionallyConsumed(spans) => Some(OwnershipState::ConditionallyConsumed(spans)),
    }
}

/// The state of a variable after an `if` whose branches left it in `then_state` and
/// `else_state`, `base` being its state before (see `joined`).
pub fn merge_join_state(base: OwnershipState, then_state: OwnershipState, else_state: OwnershipState) -> (r: OwnershipState)
    ensures
        state_view(r) == joined(state_view(base), state_view(then_state), state_view(else_state)),
{
    if then_state.same_as(&else_state) {
        return then_state;
    }
    match then_state {
        OwnershipState::Alive => {
            return match conditionalize_state(else_state) {
                Some(s) => s,
                None => base,
            };
        },
        _ => {},
    }
    match else_state {
        OwnershipState::Alive => {
            return match conditionalize_state(then_state) {
                Some(s) => s,
                None => base,
            };
        },
        _ => {},
    }
    let spans = combine_spans(state_spans(&then_state), state_spans(&else_state));
    if is_delete_family(&then_state) && is_delete_family(&else_state) {
        return OwnershipState::Deleted(spans);
    }
    if is_move_family(&then_state) && is_move_family(&else_state) {
        return OwnershipState::Moved(spans);
    }
    OwnershipState::Consumed(spans)
}


/// The places in `combined(a, b)` are those of `a` and of `b`.
pub proof fn lemma_combined_places(a: Seq<Span>, b: Seq<Span>, x: Span)
    ensures
        spans_contain(combined(a, b), x) == (spans_contain(a, x) || spans_contain(b, x)),
    decreases b.len(),
{
    if b.len() > 0 {
        let a1 = if spans_contain(a, b[0]) { a } else { a.push(b[0]) };
        lemma_combined_places(a1, b.drop_first(), x);
        if spans_contain(b, x) && !spans_contain(b.drop_first(), x) {
            assert(span_same(b[0], x)) by {
                let i = choose|i: int| 0 <= i < b.len() && span_same(#[trigger] b[i], x);
                if i > 0 {
                    assert(b.drop_first()[i - 1] == b[i]);
                }
            }
            if spans_contain(a, b[0]) {
                let j = choose|j: int| 0 <= j < a.len() && span_same(#[trigger] a[j], b[0]);
                assert(span_same(a[j], x));
            } else {
                assert(a1[a.len() as int] == b[0]);
            }
        }
        if spans_contain(b.drop_first(), x) {
            let i = choose|i: int| 0 <= i < b.len() - 1 && span_same(#[trigger] b.drop_first()[i], x);
            assert(b[i + 1] == b.drop_first()[i]);
        }
        if spans_contain(a1, x) && !spans_contain(a, x) {
            let j = choose|j: int| 0 <= j < a1.len() && span_same(#[trigger] a1[j], x);
            if j < a.len() {
                assert(a1[j] == a[j]);
            } else {
                assert(span_same(b[0], x));
            }
        }
        if spans_contain(a, x) {
            let j = choose|j: int| 0 <= j < a.len() && span_same(#[trigger] a[j], x);
            assert(a1[j] == a[j]);
        }
    }
}

/// Joining two equal branch states gives that state.
pub proof fn lemma_join_same_branches(base: (StateKind, Seq<Span>), s: (StateKind, Seq<Span>))
    ensures
        joined(base, s, s) == s,
{
}

/// Making a state conditional twice is making it conditional once.
pub proof fn lemma_conditional_idempotent(s: (StateKind, Seq<Span>))
    ensures
        conditional(s) matches Some(c) ==> conditional(c) == Some(c),
{
}

/// The join does not depend on which branch is `then` and which is `else`, but for the
/// order of the spans: the kind and the places are the same.
pub proof fn lemma_join_symmetric(
    base: (StateKind, Seq<Span>),
    t: (StateKind, Seq<Span>),
    e: (StateKind, Seq<Span>),
    x: Span,
)
    ensures
        joined(base, t, e).0 == joined(base, e, t).0,
        spans_contain(joined(base, t, e).1, x) == spans_contain(joined(base, e, t).1, x),
{
    if same_state(t, e) {
        assert(same_state(e, t));
        if spans_contain(t.1, x) {
            let i = choose|i: int| 0 <= i < t.1.len() && span_same(#[trigger] t.1[i], x);
            assert(span_same(e.1[i], x));
        }
        if spans_contain(e.1, x) {
            let i = choose|i: int| 0 <= i < e.1.len() && span_same(#[trigger] e.1[i], x);
            assert(span_same(t.1[i], x));
        }
    } else {
        assert(!same_state(e, t)) by {
            if same_state(e, t) {
                assert forall|i: int| 0 <= i < t.1.len() implies span_same(#[trigger] t.1[i], e.1[i]) by {
                    assert(span_same(e.1[i], t.1[i]));
                }
            }
        }
        lemma_combined_places(t.1, e.1, x);
        lemma_combined_places(e.1, t.1, x);
    }
}


/// A local variable of a function body, or one of its parameters.
#[derive(Debug)]
pub struct LocalVar {
    pub name: String,
    pub ty: HirTy,
    /// Introduced by the compiler (its name starts with `__tmp`).
    pub is_compiler_temp: bool,
}

/// The locals of one block, in order of declaration, and the state of each, by name.
#[derive(Debug)]
pub struct ScopeFrame {
    pub locals: Vec<LocalVar>,
    pub states: Vec<(String, OwnershipState)>,
}

/// No two states are kept for one name.
pub open spec fn names_unique(states: Seq<(String, OwnershipState)>) -> bool {
    forall|i: int, j: int| 0 <= i < j < states.len() ==> #[trigger] states[i].0@ != #[trigger] states[j].0@
}

/// Every frame keeps one state per name.
pub open spec fn frames_wf(stack: Seq<ScopeFrame>) -> bool {
    forall|i: int| 0 <= i < stack.len() ==> names_unique(#[trigger] stack[i].states@)
}

/// The state kept for `name` in a frame.
pub open spec fn frame_state(f: ScopeFrame, name: Seq<char>) -> Option<(StateKind, Seq<Span>)> {
    match lookup(f.states@, name) {
        Some(s) => Some(state_view(s)),
        None => None,
    }
}

/// The innermost of the first `n` frames that keeps a state for `name`.
pub open spec fn frame_with(stack: Seq<ScopeFrame>, name: Seq<char>, n: int) -> Option<int>
    decreases n,
{
    if n <= 0 || n > stack.len() {
        None
    } else if has_key(stack[n - 1].states@, name) {
        Some(n - 1)
    } else {
        frame_with(stack, name, n - 1)
    }
}

/// The state of `name` as the innermost frame that knows it keeps it.
pub open spec fn stack_state(stack: Seq<ScopeFrame>, name: Seq<char>) -> Option<(StateKind, Seq<Span>)> {
    match frame_with(stack, name, stack.len() as int) {
        Some(k) => frame_state(stack[k], name),
        None => None,
    }
}

proof fn lemma_frame_with(stack: Seq<ScopeFrame>, name: Seq<char>, n: int)
    requires
        0 <= n <= stack.len(),
    ensures
        frame_with(stack, name, n) matches Some(k) ==> 0 <= k < n && has_key(stack[k].states@, name)
            && forall|q: int| k < q < n ==> !has_key(#[trigger] stack[q].states@, name),
        frame_with(stack, name, n) is None ==> forall|q: int| 0 <= q < n ==> !has_key(#[trigger] stack[q].states@, name),
    decreases n,
{
    if n > 0 {
        lemma_frame_with(stack, name, n - 1);
    }
}

/// Where in `states` the first entry called `name` is.
fn state_index(states: &Vec<(String, OwnershipState)>, name: &str) -> (r: Option<usize>)
    ensures
        r matches Some(i) ==> i < states@.len() && states@[i as int].0@ == name@
            && lookup(states@, name@) == Some(states@[i as int].1),
        r is None ==> !has_key(states@, name@) && lookup(states@, name@) is None,
{
    find_key(states, name)
}

/// Sets the state of `name`, replacing the one kept for it or adding an entry.
fn set_state(states: &mut Vec<(String, OwnershipState)>, name: &str, state: OwnershipState)
    requires
        names_unique(old(states)@),
    ensures
        names_unique(final(states)@),
        forall|k: Seq<char>| #[trigger] has_key(final(states)@, k) == (has_key(old(states)@, k) || k == name@),
        frame_state_in(final(states)@, name@) == Some(state_view(state)),
        forall|k: Seq<char>| k != name@ ==> #[trigger] frame_state_in(final(states)@, k) == frame_state_in(old(states)@, k),
{
    let ghost s0 = states@;
    proof {
        lemma_unique_lookup(s0);
    }
    match state_index(states, name) {
        Some(i) => {
            states.set(i, (String::from_str(name), state));
            proof {
                let s1 = states@;
                assert(s1 == s0.update(i as int, s1[i as int]));
                assert forall|a: int, b: int| 0 <= a < b < s1.len() implies #[trigger] s1[a].0@ != #[trigger] s1[b].0@ by {
                    if a != i && b != i {
                        assert(s0[a].0@ != s0[b].0@);
                    } else if a == i {
                        assert(s0[i as int].0@ != s0[b].0@);
                    } else {
                        assert(s0[a].0@ != s0[i as int].0@);
                    }
                }
                lemma_unique_lookup(s1);
                assert(lookup(s1, s1[i as int].0@) == Some(s1[i as int].1));
                assert forall|k: Seq<char>| #[trigger] has_key(s1, k) == (has_key(s0, k) || k == name@) by {
                    if has_key(s1, k) {
                        let j = choose|j: int| 0 <= j < s1.len() && #[trigger] s1[j].0@ == k;
                        if j != i {
                            assert(s0[j].0@ == k);
                        }
                    }
                    if has_key(s0, k) {
                        let j = choose|j: int| 0 <= j < s0.len() && #[trigger] s0[j].0@ == k;
                        if j != i {
                            assert(s1[j].0@ == k);
                        } else {
                            assert(s1[i as int].0@ == k);
                        }
                    }
                    if k == name@ {
                        assert(s1[i as int].0@ == k);
                    }
                }
                assert forall|k: Seq<char>| k != name@ implies #[trigger] frame_state_in(s1, k) == frame_state_in(s0, k) by {
                    if has_key(s0, k) {
                        let j = choose|j: int| 0 <= j < s0.len() && #[trigger] s0[j].0@ == k;
                        assert(j != i);
                        assert(s1[j] == s0[j]);
                    } else {
                        assert(!has_key(s1, k));
                    }
                }
            }
        },
        None => {
            states.push((String::from_str(name), state));
            proof {
                let s1 = states@;
                assert(s1.drop_last() == s0);
                assert forall|a: int, b: int| 0 <= a < b < s1.len() implies #[trigger] s1[a].0@ != #[trigger] s1[b].0@ by {
                    if b == s1.len() - 1 {
                        assert(s0[a].0@ != name@);
                    } else {
                        assert(s0[a].0@ != s0[b].0@);
                    }
                }
                lemma_unique_lookup(s1);
                assert forall|k: Seq<char>| #[trigger] has_key(s1, k) == (has_key(s0, k) || k == name@) by {
                    if has_key(s1, k) {
                        let j = choose|j: int| 0 <= j < s1.len() && #[trigger] s1[j].0@ == k;
                        if j < s0.len() {
                            assert(s0[j].0@ == k);
                        }
                    }
                    if has_key(s0, k) {
                        let j = choose|j: int| 0 <= j < s0.len() && #[trigger] s0[j].0@ == k;
                        assert(s1[j].0@ == k);
                    }
                    if k == name@ {
                        assert(s1[s0.len() as int].0@ == k);
                    }
                }
                assert(s1[s0.len() as int].0@ == name@);
                assert(lookup(s1, s1[s0.len() as int].0@) == Some(s1[s0.len() as int].1));
                assert forall|k: Seq<char>| k != name@ implies #[trigger] frame_state_in(s1, k) == frame_state_in(s0, k) by {
                    if has_key(s0, k) {
                        let j = choose|j: int| 0 <= j < s0.len() && #[trigger] s0[j].0@ == k;
                        assert(s1[j] == s0[j]);
                    } else {
                        assert(!has_key(s1, k));
                    }
                }
            }
        },
    }
}

/// The state kept for `name` among `states`.
pub open spec fn frame_state_in(states: Seq<(String, OwnershipState)>, name: Seq<char>) -> Option<(StateKind, Seq<Span>)> {
    match lookup(states, name) {
        Some(s) => Some(state_view(s)),
        None => None,
    }
}

/// With one entry per name, `lookup` finds the entry of that name wherever it is.
proof fn lemma_unique_lookup(s: Seq<(String, OwnershipState)>)
    requires
        names_unique(s),
    ensures
        forall|i: int| 0 <= i < s.len() ==> lookup(s, #[trigger] s[i].0@) == Some(s[i].1),
        forall|k: Seq<char>| !has_key(s, k) ==> #[trigger] lookup(s, k) is None,
    decreases s.len(),
{
    if s.len() > 0 {
        let d = s.drop_first();
        assert forall|a: int, b: int| 0 <= a < b < d.len() implies #[trigger] d[a].0@ != #[trigger] d[b].0@ by {
            assert(s[a + 1].0@ != s[b + 1].0@);
        }
        lemma_unique_lookup(d);
        assert forall|i: int| 0 <= i < s.len() implies lookup(s, #[trigger] s[i].0@) == Some(s[i].1) by {
            if i > 0 {
                assert(s[0].0@ != s[i].0@);
                assert(d[i - 1] == s[i]);
            }
        }
        assert forall|k: Seq<char>| !has_key(s, k) implies #[trigger] lookup(s, k) is None by {
            assert(lookup(s, k) == lookup(d, k)) by {
                if s[0].0@ == k {
                    assert(has_key(s, k));
                }
            }
            if has_key(d, k) {
                let j = choose|j: int| 0 <= j < d.len() && #[trigger] d[j].0@ == k;
                assert(s[j + 1].0@ == k);
            }
            assert(s[0].0@ != k);
        }
    }
}

/// Registers a local in the innermost frame, alive.
pub fn register_local(scope_stack: &mut Vec<ScopeFrame>, var: LocalVar)
    requires
        frames_wf(old(scope_stack)@),
    ensures
        frames_wf(final(scope_stack)@),
        final(scope_stack)@.len() == old(scope_stack)@.len(),
        old(scope_stack)@.len() > 0 ==> {
            let last = old(scope_stack)@.len() - 1;
            &&& forall|i: int| 0 <= i < last ==> #[trigger] final(scope_stack)@[i] == old(scope_stack)@[i]
            &&& final(scope_stack)@[last].locals@ == old(scope_stack)@[last].locals@.push(var)
            &&& frame_state_in(final(scope_stack)@[last].states@, var.name@) == Some((StateKind::Alive, Seq::<Span>::empty()))
            &&& forall|k: Seq<char>| k != var.name@ ==> #[trigger] frame_state_in(final(scope_stack)@[last].states@, k)
                == frame_state_in(old(scope_stack)@[last].states@, k)
        },
{
    if scope_stack.len() == 0 {
        return;
    }
    let ghost s0 = scope_stack@;
    let mut frame = scope_stack.pop().unwrap();
    proof {
        assert(names_unique(s0[s0.len() - 1].states@));
    }
    let name = var.name.clone();
    frame.locals.push(var);
    set_state(&mut frame.states, name.as_str(), OwnershipState::Alive);
    scope_stack.push(frame);
    proof {
        assert forall|i: int| 0 <= i < scope_stack@.len() implies names_unique(#[trigger] scope_stack@[i].states@) by {
            if i < s0.len() - 1 {
                assert(scope_stack@[i] == s0[i]);
            }
        }
    }
}

/// Gives `name` the state `state` in the innermost frame that keeps a state for it.
fn mark_state(scope_stack: &mut Vec<ScopeFrame>, name: &str, state: OwnershipState)
    requires
        frames_wf(old(scope_stack)@),
    ensures
        frames_wf(final(scope_stack)@),
        final(scope_stack)@.len() == old(scope_stack)@.len(),
        match frame_with(old(scope_stack)@, name@, old(scope_stack)@.len() as int) {
            Some(k) => {
                &&& forall|i: int| 0 <= i < old(scope_stack)@.len() && i != k ==> #[trigger] final(scope_stack)@[i] == old(scope_stack)@[i]
                &&& final(scope_stack)@[k].locals == old(scope_stack)@[k].locals
                &&& frame_state_in(final(scope_stack)@[k].states@, name@) == Some(state_view(state))
                &&& forall|n: Seq<char>| n != name@ ==> #[trigger] frame_state_in(final(scope_stack)@[k].states@, n)
                    == frame_state_in(old(scope_stack)@[k].states@, n)
            },
            None => final(scope_stack)@ == old(scope_stack)@,
        },
{
    let ghost s0 = scope_stack@;
    proof {
        lemma_frame_with(s0, name@, s0.len() as int);
    }
    let mut k: usize = scope_stack.len();
    while k > 0
        invariant
            k <= s0.len(),
            scope_stack@ == s0,
            s0 == old(scope_stack)@,
            frames_wf(s0),
            forall|q: int| k <= q < s0.len() ==> !has_key(#[trigger] s0[q].states@, name@),
            frame_with(s0, name@, s0.len() as int) == frame_with(s0, name@, k as int),
        decreases k,
    {
        let i = k - 1;
        if state_index(&scope_stack[i].states, name).is_some() {
            let mut frame = scope_stack.remove(i);
            proof {
                assert(frame == s0[i as int]);
                assert(names_unique(s0[i as int].states@));
            }
            let ghost removed = scope_stack@;
            set_state(&mut frame.states, name, state);
            scope_stack.insert(i, frame);
            proof {
                assert(removed == s0.remove(i as int));
                assert(scope_stack@ == removed.insert(i as int, frame));
                assert(scope_stack@.len() == s0.len());
                assert(frame_with(s0, name@, k as int) == Some(i as int));
                assert forall|q: int| 0 <= q < s0.len() && q != i implies #[trigger] scope_stack@[q] == s0[q] by {}
                assert forall|q: int| 0 <= q < scope_stack@.len() implies names_unique(#[trigger] scope_stack@[q].states@) by {
                    if q != i {
                        assert(scope_stack@[q] == s0[q]);
                    }
                }
            }
            return;
        }
        k = i;
    }
}

/// Marks `name` deleted at `delete_span` in the innermost frame that knows it.
pub fn mark_deleted(scope_stack: &mut Vec<ScopeFrame>, name: &str, delete_span: Span)
    requires
        frames_wf(old(scope_stack)@),
    ensures
        frames_wf(final(scope_stack)@),
        final(scope_stack)@.len() == old(scope_stack)@.len(),
        match frame_with(old(scope_stack)@, name@, old(scope_stack)@.len() as int) {
            Some(k) => {
                &&& forall|i: int| 0 <= i < old(scope_stack)@.len() && i != k ==> #[trigger] final(scope_stack)@[i] == old(scope_stack)@[i]
                &&& final(scope_stack)@[k].locals == old(scope_stack)@[k].locals
                &&& frame_state_in(final(scope_stack)@[k].states@, name@) == Some((StateKind::Deleted, seq![delete_span]))
                &&& forall|n: Seq<char>| n != name@ ==> #[trigger] frame_state_in(final(scope_stack)@[k].states@, n)
                    == frame_state_in(old(scope_stack)@[k].states@, n)
            },
            None => final(scope_stack)@ == old(scope_stack)@,
        },
{
    let mut spans: Vec<Span> = Vec::new();
    spans.push(delete_span);
    proof {
        assert(spans@ =~= seq![delete_span]);
    }
    mark_state(scope_stack, name, OwnershipState::Deleted(spans));
}

/// Marks `name` moved at `move_span` in the innermost frame that knows it.
pub fn mark_moved(scope_stack: &mut Vec<ScopeFrame>, name: &str, move_span: Span)
    requires
        frames_wf(old(scope_stack)@),
    ensures
        frames_wf(final(scope_stack)@),
        final(scope_stack)@.len() == old(scope_stack)@.len(),
        match frame_with(old(scope_stack)@, name@, old(scope_stack)@.len() as int) {
            Some(k) => {
                &&& forall|i: int| 0 <= i < old(scope_stack)@.len() && i != k ==> #[trigger] final(scope_stack)@[i] == old(scope_stack)@[i]
                &&& final(scope_stack)@[k].locals == old(scope_stack)@[k].locals
                &&& frame_state_in(final(scope_stack)@[k].states@, name@) == Some((StateKind::Moved, seq![move_span]))
                &&& forall|n: Seq<char>| n != name@ ==> #[trigger] frame_state_in(final(scope_stack)@[k].states@, n)
                    == frame_state_in(old(scope_stack)@[k].states@, n)
            },
            None => final(scope_stack)@ == old(scope_stack)@,
        },
{
    let mut spans: Vec<Span> = Vec::new();
    spans.push(move_span);
    proof {
        assert(spans@ =~= seq![move_span]);
    }
    mark_state(scope_stack, name, OwnershipState::Moved(spans));
}

/// Marks the variable assigned to alive again, in the innermost frame that knows it;
/// `dst` is the identifier assigned to, when the destination is one.
pub fn mark_assigned_alive(scope_stack: &mut Vec<ScopeFrame>, dst: Option<&str>)
    requires
        frames_wf(old(scope_stack)@),
    ensures
        frames_wf(final(scope_stack)@),
        final(scope_stack)@.len() == old(scope_stack)@.len(),
        match dst {
            Some(name) => match frame_with(old(scope_stack)@, name@, old(scope_stack)@.len() as int) {
                Some(k) => {
                    &&& forall|i: int| 0 <= i < old(scope_stack)@.len() && i != k ==> #[trigger] final(scope_stack)@[i] == old(scope_stack)@[i]
                    &&& final(scope_stack)@[k].locals == old(scope_stack)@[k].locals
                    &&& frame_state_in(final(scope_stack)@[k].states@, name@) == Some((StateKind::Alive, Seq::<Span>::empty()))
                    &&& forall|n: Seq<char>| n != name@ ==> #[trigger] frame_state_in(final(scope_stack)@[k].states@, n)
                        == frame_state_in(old(scope_stack)@[k].states@, n)
                },
                None => final(scope_stack)@ == old(scope_stack)@,
            },
            None => final(scope_stack)@ == old(scope_stack)@,
        },
{
    match dst {
        Some(name) => mark_state(scope_stack, name, OwnershipState::Alive),
        None => {},
    }
}

/// Why using a variable is refused: what happened to its value, where, and where it is used.
#[derive(Debug)]
pub enum AccessError {
    TryingToAccessADeletedValue { delete_span: Span, access_span: Span },
    TryingToAccessAMovedValue { move_span: Span, access_span: Span },
    TryingToAccessAConsumedValue { consume_spans: Vec<Span>, access_span: Span },
    TryingToAccessAPotentiallyDeletedValue { delete_span: Span, access_span: Span },
    TryingToAccessAPotentiallyMovedValue { move_span: Span, access_span: Span },
    TryingToAccessAPotentiallyConsumedValue { consume_spans: Vec<Span>, access_span: Span },
    /// A value that is not copied implicitly is used where a copy would be needed.
    TypeIsNotTriviallyCopyable { span: Span, ty_name: String },
}

/// The first span, or `dflt` where there is none.
pub open spec fn first_or(spans: Seq<Span>, dflt: Span) -> Span {
    if spans.len() > 0 { spans[0] } else { dflt }
}

/// The error that using a variable in `state` at `access` is refused with (`None`: alive).
pub open spec fn access_refusal(e: AccessError, state: (StateKind, Seq<Span>), access: Span) -> bool {
    match state.0 {
        StateKind::Alive => false,
        StateKind::Deleted => e == AccessError::TryingToAccessADeletedValue {
            delete_span: first_or(state.1, access),
            access_span: access,
        },
        StateKind::Moved => e == AccessError::TryingToAccessAMovedValue { move_span: first_or(state.1, access), access_span: access },
        StateKind::Consumed => e matches AccessError::TryingToAccessAConsumedValue { consume_spans, access_span }
            && consume_spans@ == state.1 && access_span == access,
        StateKind::ConditionallyDeleted => e == AccessError::TryingToAccessAPotentiallyDeletedValue {
            delete_span: first_or(state.1, access),
            access_span: access,
        },
        StateKind::ConditionallyMoved => e == AccessError::TryingToAccessAPotentiallyMovedValue {
            move_span: first_or(state.1, access),
            access_span: access,
        },
        StateKind::ConditionallyConsumed => e matches AccessError::TryingToAccessAPotentiallyConsumedValue {
            consume_spans,
            access_span,
        } && consume_spans@ == state.1 && access_span == access,
    }
}

fn first_span_or(spans: &Vec<Span>, dflt: Span) -> (r: Span)
    ensures
        r == first_or(spans@, dflt),
{
    if spans.len() > 0 { spans[0] } else { dflt }
}

/// Where frame `k` knows `name` and no later frame among the first `n` does, frame `k`
/// decides the state of `name`.
proof fn lemma_frame_with_at(stack: Seq<ScopeFrame>, name: Seq<char>, k: int, n: int)
    requires
        0 <= k < n <= stack.len(),
        has_key(stack[k].states@, name),
        forall|q: int| k < q < n ==> !has_key(#[trigger] stack[q].states@, name),
    ensures
        frame_with(stack, name, n) == Some(k),
    decreases n,
{
    if n - 1 > k {
        lemma_frame_with_at(stack, name, k, n - 1);
    }
}

/// After the frame that decides the state of `name` is given a new state for it (all
/// other frames unchanged), that new state is the state of `name`.
proof fn lemma_marked_state(before: Seq<ScopeFrame>, after: Seq<ScopeFrame>, name: Seq<char>, k: int,
    st: (StateKind, Seq<Span>))
    requires
        frame_with(before, name, before.len() as int) == Some(k),
        after.len() == before.len(),
        forall|i: int| 0 <= i < before.len() && i != k ==> #[trigger] after[i] == before[i],
        frame_state_in(after[k].states@, name) == Some(st),
    ensures
        stack_state(after, name) == Some(st),
{
    lemma_frame_with(before, name, before.len() as int);
    crate::hir::keyed::lemma_lookup_has_key(after[k].states@, name);
    assert forall|q: int| k < q < after.len() implies !has_key(#[trigger] after[q].states@, name) by {
        assert(after[q] == before[q]);
    }
    lemma_frame_with_at(after, name, k, after.len() as int);
}

/// Use after move: once `name` is marked moved at `s` (the frames as `mark_moved` leaves
/// them, where some frame knows `name`), its state is `Moved` at `s`, and a use of it at
/// `access` is refused with exactly that move and that use.
pub proof fn lemma_use_after_move_refused(before: Seq<ScopeFrame>, after: Seq<ScopeFrame>, name: Seq<char>, s: Span,
    access: Span)
    requires
        frames_wf(before),
        frame_with(before, name, before.len() as int) matches Some(k) && after.len() == before.len()
            && (forall|i: int| 0 <= i < before.len() && i != k ==> #[trigger] after[i] == before[i])
            && frame_state_in(after[k].states@, name) == Some((StateKind::Moved, seq![s])),
    ensures
        stack_state(after, name) == Some((StateKind::Moved, seq![s])),
        forall|e: AccessError| #[trigger] access_refusal(e, (StateKind::Moved, seq![s]), access)
            <==> e == (AccessError::TryingToAccessAMovedValue { move_span: s, access_span: access }),
{
    let k = frame_with(before, name, before.len() as int).unwrap();
    lemma_marked_state(before, after, name, k, (StateKind::Moved, seq![s]));
}

/// Use after delete: once `name` is marked deleted at `s` (the frames as `mark_deleted`
/// leaves them, where some frame knows `name`), its state is `Deleted` at `s`, and a use of
/// it at `access` is refused with exactly that delete and that use.
pub proof fn lemma_use_after_delete_refused(before: Seq<ScopeFrame>, after: Seq<ScopeFrame>, name: Seq<char>, s: Span,
    access: Span)
    requires
        frames_wf(before),
        frame_with(before, name, before.len() as int) matches Some(k) && after.len() == before.len()
            && (forall|i: int| 0 <= i < before.len() && i != k ==> #[trigger] after[i] == before[i])
            && frame_state_in(after[k].states@, name) == Some((StateKind::Deleted, seq![s])),
    ensures
        stack_state(after, name) == Some((StateKind::Deleted, seq![s])),
        forall|e: AccessError| #[trigger] access_refusal(e, (StateKind::Deleted, seq![s]), access)
            <==> e == (AccessError::TryingToAccessADeletedValue { delete_span: s, access_span: access }),
{
    let k = frame_with(before, name, before.len() as int).unwrap();
    lemma_marked_state(before, after, name, k, (StateKind::Deleted, seq![s]));
}

/// Assigning revives: once the variable assigned to is marked alive (the frames as
/// `mark_assigned_alive` leaves them, where some frame knows it), a use of it is accepted.
pub proof fn lemma_assignment_revives(before: Seq<ScopeFrame>, after: Seq<ScopeFrame>, name: Seq<char>)
    requires
        frames_wf(before),
        frame_with(before, name, before.len() as int) matches Some(k) && after.len() == before.len()
            && (forall|i: int| 0 <= i < before.len() && i != k ==> #[trigger] after[i] == before[i])
            && frame_state_in(after[k].states@, name) == Some((StateKind::Alive, Seq::<Span>::empty())),
    ensures
        stack_state(after, name) == Some((StateKind::Alive, Seq::<Span>::empty())),
{
    let k = frame_with(before, name, before.len() as int).unwrap();
    lemma_marked_state(before, after, name, k, (StateKind::Alive, Seq::<Span>::empty()));
}

/// Checks a use of the variable `name` at `access_span`: a variable whose value was (or
/// may have been) deleted, moved or consumed is refused; an alive one, or a name that no
/// frame keeps a state for, is accepted.
pub fn validate_identifier_use(scope_stack: &Vec<ScopeFrame>, name: &str, access_span: Span) -> (r: Result<(), AccessError>)
    ensures
        match stack_state(scope_stack@, name@) {
            Some(st) => if st.0 is Alive {
                r is Ok
            } else {
                r matches Err(e) && access_refusal(e, st, access_span)
            },
            None => r is Ok,
        },
{
    match find_state(scope_stack, name) {
        Some(state) => match state {
            OwnershipState::Alive => Ok(()),
            OwnershipState::Deleted(spans) => Err(AccessError::TryingToAccessADeletedValue {
                delete_span: first_span_or(&spans, access_span),
                access_span,
            }),
            OwnershipState::Moved(spans) => Err(AccessError::TryingToAccessAMovedValue {
                move_span: first_span_or(&spans, access_span),
                access_span,
            }),
            OwnershipState::Consumed(spans) => Err(AccessError::TryingToAccessAConsumedValue {
                consume_spans: spans,
                access_span,
            }),
            OwnershipState::ConditionallyMoved(spans) => Err(AccessError::TryingToAccessAPotentiallyMovedValue {
                move_span: first_span_or(&spans, access_span),
                access_span,
            }),
            OwnershipState::ConditionallyDeleted(spans) => Err(AccessError::TryingToAccessAPotentiallyDeletedValue {
                delete_span: first_span_or(&spans, access_span),
                access_span,
            }),
            OwnershipState::ConditionallyConsumed(spans) => Err(AccessError::TryingToAccessAPotentiallyConsumedValue {
                consume_spans: spans,
                access_span,
            }),
        },
        None => Ok(()),
    }
}

/// The state of `name`, as the innermost frame that knows it keeps it (see `stack_state`).
pub fn find_state(scope_stack: &Vec<ScopeFrame>, name: &str) -> (r: Option<OwnershipState>)
    ensures
        match stack_state(scope_stack@, name@) {
            Some(v) => r matches Some(s) && state_view(s) == v,
            None => r is None,
        },
{
    let ghost s0 = scope_stack@;
    proof {
        lemma_frame_with(s0, name@, s0.len() as int);
    }
    let mut k: usize = scope_stack.len();
    while k > 0
        invariant
            k <= s0.len(),
            scope_stack@ == s0,
            frame_with(s0, name@, s0.len() as int) == frame_with(s0, name@, k as int),
        decreases k,
    {
        let i = k - 1;
        match state_index(&scope_stack[i].states, name) {
            Some(j) => {
                return Some(scope_stack[i].states[j].1.duplicate());
            },
            None => {},
        }
        k = i;
    }
    None
}


/// The index of the last of the first `n` locals called `name`.
pub open spec fn last_local_with(locals: Seq<LocalVar>, name: Seq<char>, n: int) -> Option<int>
    decreases n,
{
    if n <= 0 || n > locals.len() {
        None
    } else if locals[n - 1].name@ == name {
        Some(n - 1)
    } else {
        last_local_with(locals, name, n - 1)
    }
}

/// Where the local `name` that is in scope is: the innermost of the first `n` frames that
/// declares it, and there its latest declaration.
pub open spec fn local_position(stack: Seq<ScopeFrame>, name: Seq<char>, n: int) -> Option<(int, int)>
    decreases n,
{
    if n <= 0 || n > stack.len() {
        None
    } else {
        match last_local_with(stack[n - 1].locals@, name, stack[n - 1].locals@.len() as int) {
            Some(j) => Some((n - 1, j)),
            None => local_position(stack, name, n - 1),
        }
    }
}

proof fn lemma_last_local_bounds(locals: Seq<LocalVar>, name: Seq<char>, n: int)
    ensures
        last_local_with(locals, name, n) matches Some(j) ==> 0 <= j < n && j < locals.len(),
    decreases n,
{
    if n > 0 && n <= locals.len() {
        lemma_last_local_bounds(locals, name, n - 1);
    }
}

/// The local `name` in scope (see `local_position`).
pub fn find_local<'a>(scope_stack: &'a Vec<ScopeFrame>, name: &str) -> (r: Option<&'a LocalVar>)
    ensures
        match local_position(scope_stack@, name@, scope_stack@.len() as int) {
            Some((f, j)) => r matches Some(l) && 0 <= f < scope_stack@.len() && 0 <= j < scope_stack@[f].locals@.len()
                && *l == scope_stack@[f].locals@[j],
            None => r is None,
        },
{
    match find_local_frame(scope_stack, name) {
        Some((f, j)) => Some(&scope_stack[f].locals[j]),
        None => None,
    }
}

/// The frame and the place in it of the local `name` in scope (see `local_position`).
fn find_local_frame(scope_stack: &Vec<ScopeFrame>, name: &str) -> (r: Option<(usize, usize)>)
    ensures
        match r {
            Some((f, j)) => local_position(scope_stack@, name@, scope_stack@.len() as int) == Some((f as int, j as int))
                && f < scope_stack@.len() && j < scope_stack@[f as int].locals@.len()
                && scope_stack@[f as int].locals@[j as int].name@ == name@,
            None => local_position(scope_stack@, name@, scope_stack@.len() as int) is None,
        },
{
    let mut k: usize = scope_stack.len();
    while k > 0
        invariant
            k <= scope_stack@.len(),
            local_position(scope_stack@, name@, scope_stack@.len() as int) == local_position(scope_stack@, name@, k as int),
        decreases k,
    {
        let i = k - 1;
        let locals = &scope_stack[i].locals;
        let mut j: usize = locals.len();
        while j > 0
            invariant
                j <= locals@.len(),
                i < scope_stack@.len(),
                k == i + 1,
                local_position(scope_stack@, name@, scope_stack@.len() as int) == local_position(scope_stack@, name@, k as int),
                locals@ == scope_stack@[i as int].locals@,
                last_local_with(locals@, name@, locals@.len() as int) == last_local_with(locals@, name@, j as int),
            decreases j,
        {
            if str_eq(locals[j - 1].name.as_str(), name) {
                return Some((i, j - 1));
            }
            j = j - 1;
        }
        k = i;
    }
    None
}

/// The state of `name` in frame `i` of a branch's frames, or `dflt` when the branch has
/// no such frame or that frame keeps no state for it.
pub open spec fn branch_state(
    frames: Seq<ScopeFrame>,
    i: int,
    name: Seq<char>,
    dflt: (StateKind, Seq<Span>),
) -> (StateKind, Seq<Span>) {
    if 0 <= i < frames.len() {
        match frame_state_in(frames[i].states@, name) {
            Some(v) => v,
            None => dflt,
        }
    } else {
        dflt
    }
}

/// The state of `name` in frame `i` of a branch, as an owned value (see `branch_state`).
fn branch_state_of(frames: &Vec<ScopeFrame>, i: usize, name: &str, dflt: &OwnershipState) -> (r: OwnershipState)
    ensures
        state_view(r) == branch_state(frames@, i as int, name@, state_view(*dflt)),
{
    if i < frames.len() {
        match state_index(&frames[i].states, name) {
            Some(j) => frames[i].states[j].1.duplicate(),
            None => dflt.duplicate(),
        }
    } else {
        dflt.duplicate()
    }
}

/// After an `if`, each state kept in the frames of `base_stack` (those that the `then`
/// branch has too) becomes the join of its states in both branches (see `joined`); a
/// branch that keeps no state for a name leaves it as it was, and a missing `else`
/// leaves everything as it was.
pub fn merge_control_flow_states(
    base_stack: &mut Vec<ScopeFrame>,
    then_stack: &Vec<ScopeFrame>,
    else_stack: Option<&Vec<ScopeFrame>>,
)
    requires
        frames_wf(old(base_stack)@),
    ensures
        frames_wf(final(base_stack)@),
        final(base_stack)@.len() == old(base_stack)@.len(),
        forall|i: int| 0 <= i < old(base_stack)@.len() && i >= then_stack@.len() ==> #[trigger] final(base_stack)@[i] == old(base_stack)@[i],
        forall|i: int| 0 <= i < old(base_stack)@.len() && i < then_stack@.len() ==> {
            let o = #[trigger] old(base_stack)@[i];
            let f = final(base_stack)@[i];
            &&& f.locals == o.locals
            &&& f.states@.len() == o.states@.len()
            &&& forall|q: int| 0 <= q < o.states@.len() ==> {
                let name = #[trigger] o.states@[q].0@;
                let b = state_view(o.states@[q].1);
                &&& f.states@[q].0@ == name
                &&& state_view(f.states@[q].1) == joined(
                    b,
                    branch_state(then_stack@, i, name, b),
                    match else_stack {
                        Some(e) => branch_state(e@, i, name, b),
                        None => b,
                    },
                )
            }
        },
{
    let ghost s0 = base_stack@;
    let mut i: usize = 0;
    while i < base_stack.len()
        invariant
            i <= s0.len(),
            base_stack@.len() == s0.len(),
            s0 == old(base_stack)@,
            frames_wf(s0),
            frames_wf(base_stack@),
            forall|q: int| i <= q < s0.len() ==> #[trigger] base_stack@[q] == s0[q],
            forall|p: int| 0 <= p < i && p >= then_stack@.len() ==> #[trigger] base_stack@[p] == s0[p],
            forall|p: int| 0 <= p < i && p < then_stack@.len() ==> {
                let o = #[trigger] s0[p];
                let f = base_stack@[p];
                &&& f.locals == o.locals
                &&& f.states@.len() == o.states@.len()
                &&& forall|q: int| 0 <= q < o.states@.len() ==> {
                    let name = #[trigger] o.states@[q].0@;
                    let b = state_view(o.states@[q].1);
                    &&& f.states@[q].0@ == name
                    &&& state_view(f.states@[q].1) == joined(
                        b,
                        branch_state(then_stack@, p, name, b),
                        match else_stack {
                            Some(e) => branch_state(e@, p, name, b),
                            None => b,
                        },
                    )
                }
            },
        decreases s0.len() - i,
    {
        if i < then_stack.len() {
            let ghost before = base_stack@;
            let mut frame = base_stack.remove(i);
            let ghost o = s0[i as int];
            proof {
                assert(frame == o);
                assert(names_unique(o.states@));
                lemma_unique_lookup(o.states@);
            }
            let n = frame.states.len();
            let mut q: usize = 0;
            while q < n
                invariant
                    q <= n,
                    n == o.states@.len(),
                    frame.locals == o.locals,
                    frame.states@.len() == n,
                    names_unique(o.states@),
                    forall|r: int| q <= r < n ==> #[trigger] frame.states@[r] == o.states@[r],
                    forall|r: int| 0 <= r < n ==> #[trigger] frame.states@[r].0@ == o.states@[r].0@,
                    forall|r: int| 0 <= r < q ==> {
                        let name = #[trigger] o.states@[r].0@;
                        let b = state_view(o.states@[r].1);
                        state_view(frame.states@[r].1) == joined(
                            b,
                            branch_state(then_stack@, i as int, name, b),
                            match else_stack {
                                Some(e) => branch_state(e@, i as int, name, b),
                                None => b,
                            },
                        )
                    },
                decreases n - q,
            {
                let name = frame.states[q].0.clone();
                let base_state = frame.states[q].1.duplicate();
                let then_state = branch_state_of(then_stack, i, name.as_str(), &base_state);
                let else_state = match else_stack {
                    Some(e) => branch_state_of(e, i, name.as_str(), &base_state),
                    None => base_state.duplicate(),
                };
                let merged = merge_join_state(base_state, then_state, else_state);
                frame.states.set(q, (name, merged));
                q = q + 1;
            }
            proof {
                assert forall|a: int, b: int| 0 <= a < b < frame.states@.len() implies
                    #[trigger] frame.states@[a].0@ != #[trigger] frame.states@[b].0@ by {
                    assert(o.states@[a].0@ != o.states@[b].0@);
                }
            }
            base_stack.insert(i, frame);
            proof {
                assert(base_stack@ == before.remove(i as int).insert(i as int, frame));
                assert forall|r: int| 0 <= r < base_stack@.len() implies names_unique(#[trigger] base_stack@[r].states@) by {
                    if r != i {
                        assert(base_stack@[r] == before[r]);
                    }
                }
            }
        }
        i = i + 1;
    }
}


/// Two types are written alike: same structure, names and spans.
pub open spec fn ty_same(a: TyV, b: TyV) -> bool
    decreases a, 1nat,
{
    match a {
        TyV::Integer(x) => b matches TyV::Integer(y) && x == y,
        TyV::Float(x) => b matches TyV::Float(y) && x == y,
        TyV::UnsignedInteger(x) => b matches TyV::UnsignedInteger(y) && x == y,
        TyV::Char => b is Char,
        TyV::Unit => b is Unit,
        TyV::Boolean => b is Boolean,
        TyV::String => b is String,
        TyV::Uninitialized => b is Uninitialized,
        TyV::Slice(x) => match b {
            TyV::Slice(y) => ty_same(*x, *y),
            _ => false,
        },
        TyV::InlineArray(x, n) => match b {
            TyV::InlineArray(y, m) => n == m && ty_same(*x, *y),
            _ => false,
        },
        TyV::Named(n, s) => match b {
            TyV::Named(m, t) => n == m && span_same(s, t),
            _ => false,
        },
        TyV::Generic(n, xs, s) => match b {
            TyV::Generic(m, ys, t) => n == m && tys_same(xs, ys) && span_same(s, t),
            _ => false,
        },
        TyV::Function(r, ps, s) => match b {
            TyV::Function(q, qs, t) => ty_same(*r, *q) && tys_same(ps, qs) && span_same(s, t),
            _ => false,
        },
        TyV::PtrTy(x, c, s) => match b {
            TyV::PtrTy(y, d, t) => c == d && ty_same(*x, *y) && span_same(s, t),
            _ => false,
        },
    }
}

pub open spec fn tys_same(xs: Seq<TyV>, ys: Seq<TyV>) -> bool
    decreases xs, 0nat,
{
    if xs.len() == 0 {
        ys.len() == 0
    } else {
        ys.len() > 0 && tys_same(xs.drop_last(), ys.drop_last()) && ty_same(xs.last(), ys.last())
    }
}

/// Whether two types are written alike (see `ty_same`).
pub fn ty_eq(a: &HirTy, b: &HirTy) -> (r: bool)
    ensures
        r == ty_same(a@, b@),
    decreases a, 1nat,
{
    match a {
        HirTy::Integer(x) => match b {
            HirTy::Integer(y) => x.size_in_bits == y.size_in_bits,
            _ => false,
        },
        HirTy::Float(x) => match b {
            HirTy::Float(y) => x.size_in_bits == y.size_in_bits,
            _ => false,
        },
        HirTy::UnsignedInteger(x) => match b {
            HirTy::UnsignedInteger(y) => x.size_in_bits == y.size_in_bits,
            _ => false,
        },
        HirTy::Char(_) => match b {
            HirTy::Char(_) => true,
            _ => false,
        },
        HirTy::Unit(_) => match b {
            HirTy::Unit(_) => true,
            _ => false,
        },
        HirTy::Boolean(_) => match b {
            HirTy::Boolean(_) => true,
            _ => false,
        },
        HirTy::String(_) => match b {
            HirTy::String(_) => true,
            _ => false,
        },
        HirTy::Uninitialized(_) => match b {
            HirTy::Uninitialized(_) => true,
            _ => false,
        },
        HirTy::Slice(x) => match b {
            HirTy::Slice(y) => ty_eq(&x.inner, &y.inner),
            _ => false,
        },
        HirTy::InlineArray(x) => match b {
            HirTy::InlineArray(y) => x.size == y.size && ty_eq(&x.inner, &y.inner),
            _ => false,
        },
        HirTy::Named(x) => match b {
            HirTy::Named(y) => str_eq(x.name.as_str(), y.name.as_str()) && span_eq(&x.span, &y.span),
            _ => false,
        },
        HirTy::Generic(x) => match b {
            HirTy::Generic(y) => str_eq(x.name.as_str(), y.name.as_str()) && tys_eq(a, &x.inner, &y.inner)
                && span_eq(&x.span, &y.span),
            _ => false,
        },
        HirTy::Function(x) => match b {
            HirTy::Function(y) => ty_eq(&x.ret_ty, &y.ret_ty) && tys_eq(a, &x.params, &y.params) && span_eq(&x.span, &y.span),
            _ => false,
        },
        HirTy::PtrTy(x) => match b {
            HirTy::PtrTy(y) => x.is_const == y.is_const && ty_eq(&x.inner, &y.inner) && span_eq(&x.span, &y.span),
            _ => false,
        },
    }
}

proof fn lemma_tys_same_prefix(xs: Seq<TyV>, ys: Seq<TyV>, i: int)
    requires
        xs.len() == ys.len(),
        0 <= i <= xs.len(),
    ensures
        tys_same(xs.subrange(0, i), ys.subrange(0, i)) == forall|q: int| 0 <= q < i ==> #[trigger] ty_same(xs[q], ys[q]),
    decreases i,
{
    if i > 0 {
        lemma_tys_same_prefix(xs, ys, i - 1);
        assert(xs.subrange(0, i).drop_last() =~= xs.subrange(0, i - 1));
        assert(ys.subrange(0, i).drop_last() =~= ys.subrange(0, i - 1));
        assert(xs.subrange(0, i).last() == xs[i - 1]);
        assert(ys.subrange(0, i).last() == ys[i - 1]);
        assert(tys_same(xs.subrange(0, i), ys.subrange(0, i))
            == (tys_same(xs.subrange(0, i - 1), ys.subrange(0, i - 1)) && ty_same(xs[i - 1], ys[i - 1])));
        if forall|q: int| 0 <= q < i ==> #[trigger] ty_same(xs[q], ys[q]) {
            assert(forall|q: int| 0 <= q < i - 1 ==> #[trigger] ty_same(xs[q], ys[q]));
            assert(ty_same(xs[i - 1], ys[i - 1]));
        }
    } else {
        assert(xs.subrange(0, 0).len() == 0);
        assert(ys.subrange(0, 0).len() == 0);
    }
}

/// Whether the types `xs` (parts of `owner`) and `ys` are written alike, in order.
fn tys_eq(owner: &HirTy, xs: &Vec<HirTy>, ys: &Vec<HirTy>) -> (r: bool)
    requires
        forall|i: int| 0 <= i < xs@.len() ==> decreases_to!(*owner => #[trigger] xs@[i]),
    ensures
        r == tys_same(tys_view(xs@), tys_view(ys@)),
    decreases owner, 0nat,
{
    proof {
        crate::hir::ty::lemma_tys_view_len(xs@);
        crate::hir::ty::lemma_tys_view_len(ys@);
    }
    if xs.len() != ys.len() {
        proof {
            lemma_tys_same_len(tys_view(xs@), tys_view(ys@));
        }
        return false;
    }
    let mut i: usize = 0;
    while i < xs.len()
        invariant
            i <= xs@.len(),
            xs@.len() == ys@.len(),
            forall|j: int| 0 <= j < xs@.len() ==> decreases_to!(*owner => #[trigger] xs@[j]),
            forall|q: int| 0 <= q < i ==> #[trigger] ty_same(tys_view(xs@)[q], tys_view(ys@)[q]),
            tys_view(xs@).len() == xs@.len(),
            tys_view(ys@).len() == ys@.len(),
            forall|q: int| 0 <= q < xs@.len() ==> #[trigger] tys_view(xs@)[q] == xs@[q]@,
            forall|q: int| 0 <= q < ys@.len() ==> #[trigger] tys_view(ys@)[q] == ys@[q]@,
        decreases xs.len() - i,
    {
        if !ty_eq(&xs[i], &ys[i]) {
            proof {
                lemma_tys_same_prefix(tys_view(xs@), tys_view(ys@), xs@.len() as int);
                assert(tys_view(xs@).subrange(0, xs@.len() as int) =~= tys_view(xs@));
                assert(tys_view(ys@).subrange(0, ys@.len() as int) =~= tys_view(ys@));
                assert(!ty_same(tys_view(xs@)[i as int], tys_view(ys@)[i as int]));
            }
            return false;
        }
        i = i + 1;
    }
    proof {
        lemma_tys_same_prefix(tys_view(xs@), tys_view(ys@), xs@.len() as int);
        assert(tys_view(xs@).subrange(0, xs@.len() as int) =~= tys_view(xs@));
        assert(tys_view(ys@).subrange(0, ys@.len() as int) =~= tys_view(ys@));
    }
    true
}

proof fn lemma_tys_same_len(xs: Seq<TyV>, ys: Seq<TyV>)
    ensures
        tys_same(xs, ys) ==> xs.len() == ys.len(),
    decreases xs.len(),
{
    if xs.len() > 0 && ys.len() > 0 {
        lemma_tys_same_len(xs.drop_last(), ys.drop_last());
    }
}

/// The first struct of the list that is an instance of the generic `name` with the
/// arguments `inner` (its type before mangling is written alike).
pub open spec fn first_instance_struct(
    entries: Seq<(String, HirStructSignature)>,
    name: Seq<char>,
    inner: Seq<TyV>,
) -> Option<HirStructSignature>
    decreases entries.len(),
{
    if entries.len() == 0 {
        None
    } else if entries[0].1.pre_mangled_ty matches Some(p) && p.name@ == name && tys_same(tys_view(p.inner@), inner) {
        Some(entries[0].1)
    } else {
        first_instance_struct(entries.drop_first(), name, inner)
    }
}

/// The struct a generic type refers to: the struct of its name, else the first struct
/// that instantiates it with the same arguments.
pub open spec fn struct_of_generic(m: HirModuleSignature, name: Seq<char>, inner: Seq<TyV>) -> Option<HirStructSignature> {
    match lookup(m.structs@, name) {
        Some(s) => Some(s),
        None => first_instance_struct(m.structs@, name, inner),
    }
}

/// Values of the type are deleted when they go out of scope: structs with a destructor,
/// and inline arrays of such values; never pointers.
pub open spec fn auto_deleted(m: HirModuleSignature, t: TyV) -> bool
    decreases t,
{
    match t {
        TyV::Named(n, _) => lookup(m.structs@, n) matches Some(s) && s.destructor is Some,
        TyV::Generic(name, inner, _) => struct_of_generic(m, name, inner) matches Some(s) && s.destructor is Some,
        TyV::InlineArray(i, _) => auto_deleted(m, *i),
        _ => false,
    }
}

/// Values of the type are copied without a copy constructor: scalars, strings,
/// pointers, functions, slices, inline arrays of such values, and trivially copyable
/// structs.
pub open spec fn implicitly_copyable(m: HirModuleSignature, t: TyV) -> bool
    decreases t,
{
    match t {
        TyV::Integer(_) | TyV::UnsignedInteger(_) | TyV::Float(_) | TyV::Boolean | TyV::Char | TyV::Unit
        | TyV::String | TyV::PtrTy(..) | TyV::Function(..) | TyV::Slice(_) => true,
        TyV::InlineArray(i, _) => implicitly_copyable(m, *i),
        TyV::Named(n, _) => lookup(m.structs@, n) matches Some(s) && s.is_trivially_copyable,
        TyV::Generic(name, inner, _) => struct_of_generic(m, name, inner) matches Some(s) && s.is_trivially_copyable,
        _ => false,
    }
}

/// Every scalar value (an integer, unsigned integer or float of any width, a `bool`, a
/// `char`, `unit`) and every string is copied implicitly, whatever the module: a copy of
/// an alive local of such a type is always accepted.
pub proof fn lemma_scalars_copied_implicitly(m: HirModuleSignature, t: TyV)
    requires
        crate::hir::ty::scalar_kind(t),
    ensures
        implicitly_copyable(m, t),
{
}

/// Pointers, function values and slices are copied implicitly too, and an inline array is
/// copied implicitly exactly when its elements are, whatever its length.
pub proof fn lemma_references_copied_implicitly(m: HirModuleSignature, t: TyV, n: usize, k: usize)
    ensures
        (t is PtrTy || t is Function || t is Slice) ==> implicitly_copyable(m, t),
        implicitly_copyable(m, TyV::InlineArray(Box::new(t), n)) == implicitly_copyable(m, t),
        implicitly_copyable(m, TyV::InlineArray(Box::new(t), n))
            == implicitly_copyable(m, TyV::InlineArray(Box::new(t), k)),
{
}

/// Whether a type is copied implicitly does not depend on the widths of its numbers:
/// values of two numeric types of the same kind are copied alike.
pub proof fn lemma_implicit_copy_ignores_width(m: HirModuleSignature, a: u8, b: u8)
    ensures
        implicitly_copyable(m, TyV::Integer(a)) == implicitly_copyable(m, TyV::Integer(b)),
        implicitly_copyable(m, TyV::UnsignedInteger(a)) == implicitly_copyable(m, TyV::UnsignedInteger(b)),
        implicitly_copyable(m, TyV::Float(a)) == implicitly_copyable(m, TyV::Float(b)),
{
}

/// The ownership pass, with the signatures of the module it checks.
pub struct HirOwnershipPass {
    pub signature: HirModuleSignature,
}


/// A `delete <name>;` statement to emit, at `span`, for a value of type `ty`.
#[derive(Debug)]
pub struct DeleteStmt {
    pub span: Span,
    pub name: String,
    pub ty: HirTy,
}

pub open spec fn delete_view(d: DeleteStmt) -> DeleteV {
    DeleteV { start: d.span.start, end: d.span.end, path: d.span.path@, name: d.name@, ty: d.ty@ }
}

/// The model of a `delete` statement: the place, the name and the type.
pub struct DeleteV {
    pub start: usize,
    pub end: usize,
    pub path: Seq<char>,
    pub name: Seq<char>,
    pub ty: TyV,
}

/// A `delete` of `name`, of type `ty`, at no particular place (the default span).
pub open spec fn unplaced_delete(name: Seq<char>, ty: TyV) -> DeleteV {
    DeleteV { start: 0, end: 0, path: "<stdin>"@, name, ty }
}

/// A `delete` at `span`.
pub open spec fn delete_at(span: Span, name: Seq<char>, ty: TyV) -> DeleteV {
    DeleteV { start: span.start, end: span.end, path: span.path@, name, ty }
}

/// The frame keeps `name` alive.
pub open spec fn alive_in(f: ScopeFrame, name: Seq<char>) -> bool {
    frame_state(f, name) matches Some(st) && st.0 is Alive
}

/// Whether the local of frame `f` is deleted when its scope ends: it is not the excluded
/// name, its frame keeps it alive, and its type is deleted automatically.
pub open spec fn dropped(m: HirModuleSignature, f: ScopeFrame, l: LocalVar, excluded: Option<Seq<char>>) -> bool {
    &&& excluded != Some(l.name@)
    &&& alive_in(f, l.name@)
    &&& auto_deleted(m, l.ty@)
}

/// The deletes for the first `n` locals of frame `f`, the latest declared first.
pub open spec fn frame_drops(m: HirModuleSignature, f: ScopeFrame, excluded: Option<Seq<char>>, n: int)
    -> Seq<DeleteV>
    decreases n,
{
    if n <= 0 || n > f.locals@.len() {
        Seq::empty()
    } else {
        let l = f.locals@[n - 1];
        (if dropped(m, f, l, excluded) {
            seq![unplaced_delete(l.name@, l.ty@)]
        } else {
            Seq::empty()
        }) + frame_drops(m, f, excluded, n - 1)
    }
}

/// The deletes for the locals of the first `k` frames, the innermost frame first.
pub open spec fn scope_drops(m: HirModuleSignature, stack: Seq<ScopeFrame>, excluded: Option<Seq<char>>, k: int)
    -> Seq<DeleteV>
    decreases k,
{
    if k <= 0 || k > stack.len() {
        Seq::empty()
    } else {
        frame_drops(m, stack[k - 1], excluded, stack[k - 1].locals@.len() as int) + scope_drops(m, stack, excluded, k - 1)
    }
}

/// Whether the types `xs` and `ys` are written alike, in order.
pub fn tys_alike(xs: &Vec<HirTy>, ys: &Vec<HirTy>) -> (r: bool)
    ensures
        r == tys_same(tys_view(xs@), tys_view(ys@)),
{
    proof {
        crate::hir::ty::lemma_tys_view_len(xs@);
        crate::hir::ty::lemma_tys_view_len(ys@);
    }
    if xs.len() != ys.len() {
        proof {
            lemma_tys_same_len(tys_view(xs@), tys_view(ys@));
        }
        return false;
    }
    let mut i: usize = 0;
    while i < xs.len()
        invariant
            i <= xs@.len(),
            xs@.len() == ys@.len(),
            forall|q: int| 0 <= q < i ==> #[trigger] ty_same(tys_view(xs@)[q], tys_view(ys@)[q]),
            tys_view(xs@).len() == xs@.len(),
            tys_view(ys@).len() == ys@.len(),
            forall|q: int| 0 <= q < xs@.len() ==> #[trigger] tys_view(xs@)[q] == xs@[q]@,
            forall|q: int| 0 <= q < ys@.len() ==> #[trigger] tys_view(ys@)[q] == ys@[q]@,
        decreases xs.len() - i,
    {
        if !ty_eq(&xs[i], &ys[i]) {
            proof {
                lemma_tys_same_prefix(tys_view(xs@), tys_view(ys@), xs@.len() as int);
                assert(tys_view(xs@).subrange(0, xs@.len() as int) =~= tys_view(xs@));
                assert(tys_view(ys@).subrange(0, ys@.len() as int) =~= tys_view(ys@));
                assert(!ty_same(tys_view(xs@)[i as int], tys_view(ys@)[i as int]));
            }
            return false;
        }
        i = i + 1;
    }
    proof {
        lemma_tys_same_prefix(tys_view(xs@), tys_view(ys@), xs@.len() as int);
        assert(tys_view(xs@).subrange(0, xs@.len() as int) =~= tys_view(xs@));
        assert(tys_view(ys@).subrange(0, ys@.len() as int) =~= tys_view(ys@));
    }
    true
}

impl HirOwnershipPass {
    pub fn new(signature: HirModuleSignature) -> (r: Self)
        ensures
            r.signature == signature,
    {
        HirOwnershipPass { signature }
    }

    /// The struct a generic type refers to (see `struct_of_generic`).
    fn struct_of_generic_ty<'a>(&'a self, name: &str, inner: &Vec<HirTy>) -> (r: Option<&'a HirStructSignature>)
        ensures
            match struct_of_generic(self.signature, name@, tys_view(inner@)) {
                Some(s) => r matches Some(x) && *x == s,
                None => r is None,
            },
    {
        match find_key(&self.signature.structs, name) {
            Some(i) => return Some(&self.signature.structs[i].1),
            None => {},
        }
        let entries = &self.signature.structs;
        let mut i: usize = 0;
        proof {
            assert(entries@.skip(0) =~= entries@);
        }
        while i < entries.len()
            invariant
                i <= entries@.len(),
                entries@ == self.signature.structs@,
                lookup(self.signature.structs@, name@) is None,
                first_instance_struct(entries@, name@, tys_view(inner@))
                    == first_instance_struct(entries@.skip(i as int), name@, tys_view(inner@)),
            decreases entries.len() - i,
        {
            let sig = &entries[i].1;
            proof {
                assert(entries@.skip(i as int)[0] == entries@[i as int]);
                assert(entries@.skip(i as int).drop_first() =~= entries@.skip(i + 1));
            }
            match &sig.pre_mangled_ty {
                Some(pre) => {
                    if str_eq(pre.name.as_str(), name) && tys_alike(&pre.inner, inner) {
                        return Some(sig);
                    }
                },
                None => {},
            }
            i = i + 1;
        }
        None
    }


    /// Whether values of the type are deleted when they go out of scope (see
    /// `auto_deleted`).
    pub fn should_auto_delete(&self, ty: &HirTy) -> (b: bool)
        ensures
            b == auto_deleted(self.signature, ty@),
        decreases ty,
    {
        match ty {
            HirTy::PtrTy(_) => false,
            HirTy::Named(n) => match find_key(&self.signature.structs, n.name.as_str()) {
                Some(i) => self.signature.structs[i].1.destructor.is_some(),
                None => false,
            },
            HirTy::Generic(g) => match self.struct_of_generic_ty(g.name.as_str(), &g.inner) {
                Some(sig) => sig.destructor.is_some(),
                None => false,
            },
            HirTy::InlineArray(arr) => self.should_auto_delete(&arr.inner),
            _ => false,
        }
    }

    /// Whether a local's values are deleted when it goes out of scope.
    pub fn should_auto_delete_local(&self, local: &LocalVar) -> (b: bool)
        ensures
            b == auto_deleted(self.signature, local.ty@),
    {
        self.should_auto_delete(&local.ty)
    }

    /// Whether values of the type are copied implicitly (see `implicitly_copyable`).
    pub fn is_implicitly_copyable(&self, ty: &HirTy) -> (b: bool)
        ensures
            b == implicitly_copyable(self.signature, ty@),
        decreases ty,
    {
        match ty {
            HirTy::Integer(_) | HirTy::UnsignedInteger(_) | HirTy::Float(_) | HirTy::Boolean(_) | HirTy::Char(_)
            | HirTy::Unit(_) | HirTy::String(_) | HirTy::PtrTy(_) | HirTy::Function(_) | HirTy::Slice(_) => true,
            HirTy::InlineArray(arr) => self.is_implicitly_copyable(&arr.inner),
            HirTy::Named(n) => match find_key(&self.signature.structs, n.name.as_str()) {
                Some(i) => self.signature.structs[i].1.is_trivially_copyable,
                None => false,
            },
            HirTy::Generic(g) => match self.struct_of_generic_ty(g.name.as_str(), &g.inner) {
                Some(sig) => sig.is_trivially_copyable,
                None => false,
            },
            _ => false,
        }
    }

    /// Whether a local's name is one the compiler gives its temporaries (`__tmp...`).
    pub fn is_compiler_temp_name(&self, name: &str) -> (b: bool)
        ensures
            b == has_prefix(name@, "__tmp"@),
    {
        starts_with(name, "__tmp")
    }

    /// Checks a copy of the value of a variable into `dst_name` (or into an argument, with
    /// no name): `src` is the variable the value is, with its place, when it is one. A copy
    /// into the variable itself, of a name that is no local, of a local that is not alive,
    /// of a compiler temporary, or of a value copied implicitly is accepted; any other is
    /// refused, at the place of the variable, with its type.
    pub fn ensure_identifier_copy_allowed(&self, scope_stack: &Vec<ScopeFrame>, src: Option<(&str, Span)>,
        dst_name: Option<&str>) -> (r: Result<(), AccessError>)
        ensures
            match src {
                None => r is Ok,
                Some((name, span)) => if dst_name matches Some(d) && d@ == name@ {
                    r is Ok
                } else {
                    match local_position(scope_stack@, name@, scope_stack@.len() as int) {
                        None => r is Ok,
                        Some((f, j)) => {
                            let l = scope_stack@[f].locals@[j];
                            if (stack_state(scope_stack@, name@) matches Some(st) && !(st.0 is Alive)) || l.is_compiler_temp
                                || implicitly_copyable(self.signature, l.ty@) {
                                r is Ok
                            } else {
                                r matches Err(AccessError::TypeIsNotTriviallyCopyable { span: s, ty_name: t }) && s == span
                                    && t@ == crate::hir::ty::display(l.ty@)
                            }
                        },
                    }
                },
            },
    {
        let (name, span) = match src {
            Some(x) => x,
            None => return Ok(()),
        };
        match dst_name {
            Some(d) => {
                if str_eq(d, name) {
                    return Ok(());
                }
            },
            None => {},
        }
        let local = match find_local(scope_stack, name) {
            Some(l) => l,
            None => return Ok(()),
        };
        match find_state(scope_stack, name) {
            Some(state) => match state {
                OwnershipState::Alive => {},
                _ => return Ok(()),
            },
            None => {},
        }
        if local.is_compiler_temp {
            return Ok(());
        }
        if self.is_implicitly_copyable(&local.ty) {
            return Ok(());
        }
        Err(AccessError::TypeIsNotTriviallyCopyable { span, ty_name: local.ty.to_string() })
    }

    /// The `delete` statement for the variable `name` of type `ty`, at `span`.
    fn delete_stmt_for(span: Span, name: &String, ty: &HirTy) -> (r: DeleteStmt)
        ensures
            delete_view(r) == delete_at(span, name@, ty@),
    {
        DeleteStmt { span, name: name.clone(), ty: ty.duplicate() }
    }

    /// Whether frame `frame` keeps `name` alive.
    fn is_alive_in(frame: &ScopeFrame, name: &str) -> (b: bool)
        ensures
            b == alive_in(*frame, name@),
    {
        match state_index(&frame.states, name) {
            Some(i) => match frame.states[i].1 {
                OwnershipState::Alive => true,
                _ => false,
            },
            None => false,
        }
    }

    /// The deletes that end the scopes of `scope_stack`: each local, innermost frame first
    /// and latest declared first, that is alive, deleted automatically, and not
    /// `excluded_name`.
    pub fn collect_scope_drops(&self, scope_stack: &Vec<ScopeFrame>, excluded_name: Option<&str>) -> (r: Vec<DeleteStmt>)
        ensures
            r@.map_values(|d: DeleteStmt| delete_view(d)) == scope_drops(self.signature, scope_stack@,
                match excluded_name { Some(e) => Some(e@), None => None }, scope_stack@.len() as int),
    {
        let ghost ex = match excluded_name { Some(e) => Some(e@), None => None::<Seq<char>> };
        let mut drops: Vec<DeleteStmt> = Vec::new();
        let mut k: usize = scope_stack.len();
        while k > 0
            invariant
                k <= scope_stack@.len(),
                ex == match excluded_name { Some(e) => Some(e@), None => None::<Seq<char>> },
                drops@.map_values(|d: DeleteStmt| delete_view(d)) + scope_drops(self.signature, scope_stack@, ex, k as int)
                    == scope_drops(self.signature, scope_stack@, ex, scope_stack@.len() as int),
            decreases k,
        {
            let frame = &scope_stack[k - 1];
            let ghost f = scope_stack@[k - 1];
            let mut n: usize = frame.locals.len();
            proof {
                assert(scope_drops(self.signature, scope_stack@, ex, k as int)
                    == frame_drops(self.signature, f, ex, n as int) + scope_drops(self.signature, scope_stack@, ex, k - 1));
                assert(drops@.map_values(|d: DeleteStmt| delete_view(d)) + scope_drops(self.signature, scope_stack@, ex, k as int)
                    =~= drops@.map_values(|d: DeleteStmt| delete_view(d)) + frame_drops(self.signature, f, ex, n as int)
                        + scope_drops(self.signature, scope_stack@, ex, k - 1));
            }
            while n > 0
                invariant
                    n <= frame.locals@.len(),
                    *frame == f,
                    f == scope_stack@[k - 1],
                    1 <= k <= scope_stack@.len(),
                    ex == match excluded_name { Some(e) => Some(e@), None => None::<Seq<char>> },
                    drops@.map_values(|d: DeleteStmt| delete_view(d)) + frame_drops(self.signature, f, ex, n as int)
                        + scope_drops(self.signature, scope_stack@, ex, k - 1)
                        == scope_drops(self.signature, scope_stack@, ex, scope_stack@.len() as int),
                decreases n,
            {
                let local = &frame.locals[n - 1];
                let excluded = match excluded_name {
                    Some(e) => str_eq(e, local.name.as_str()),
                    None => false,
                };
                let ghost before = drops@;
                if !excluded && Self::is_alive_in(frame, local.name.as_str()) && self.should_auto_delete_local(local) {
                    drops.push(Self::delete_stmt_for(Span::default(), &local.name, &local.ty));
                    proof {
                        assert(drops@ == before.push(drops@.last()));
                        assert(delete_view(drops@.last()) == unplaced_delete(local.name@, local.ty@));
                        assert(drops@.map_values(|d: DeleteStmt| delete_view(d))
                            =~= before.map_values(|d: DeleteStmt| delete_view(d)) + seq![unplaced_delete(local.name@, local.ty@)]);
                    }
                }
                proof {
                    assert(frame_drops(self.signature, f, ex, n as int) == (if dropped(self.signature, f, *local, ex) {
                        seq![unplaced_delete(local.name@, local.ty@)]
                    } else {
                        Seq::empty()
                    }) + frame_drops(self.signature, f, ex, n - 1));
                    if !dropped(self.signature, f, *local, ex) {
                        assert(drops@ == before);
                    }
                    assert(drops@.map_values(|d: DeleteStmt| delete_view(d)) + frame_drops(self.signature, f, ex, n - 1)
                        =~= before.map_values(|d: DeleteStmt| delete_view(d)) + frame_drops(self.signature, f, ex, n as int));
                }
                n = n - 1;
            }
            proof {
                assert(frame_drops(self.signature, f, ex, 0) =~= Seq::<DeleteV>::empty());
                assert(drops@.map_values(|d: DeleteStmt| delete_view(d)) + frame_drops(self.signature, f, ex, 0)
                    =~= drops@.map_values(|d: DeleteStmt| delete_view(d)));
            }
            k = k - 1;
        }
        proof {
            assert(drops@.map_values(|d: DeleteStmt| delete_view(d)) + scope_drops(self.signature, scope_stack@, ex, 0)
                =~= drops@.map_values(|d: DeleteStmt| delete_view(d)));
        }
        drops
    }

    /// The `delete` to emit before assigning to the variable `dst` (at `assign_span`): the
    /// old value of the innermost local of that name, when it is alive and deleted
    /// automatically.
    pub fn pre_delete_before_assign(&self, scope_stack: &Vec<ScopeFrame>, dst: Option<&str>, assign_span: Span)
        -> (r: Option<DeleteStmt>)
        ensures
            match dst {
                None => r is None,
                Some(name) => match local_position(scope_stack@, name@, scope_stack@.len() as int) {
                    Some((f, j)) => {
                        let l = scope_stack@[f].locals@[j];
                        if auto_deleted(self.signature, l.ty@) && alive_in(scope_stack@[f], name@) {
                            r matches Some(d) && delete_view(d) == delete_at(assign_span, name@, l.ty@)
                        } else {
                            r is None
                        }
                    },
                    None => r is None,
                },
            },
    {
        let name = match dst {
            Some(n) => n,
            None => return None,
        };
        match find_local_frame(scope_stack, name) {
            Some((f, j)) => {
                let frame = &scope_stack[f];
                let local = &frame.locals[j];
                if !self.should_auto_delete_local(local) {
                    return None;
                }
                if !Self::is_alive_in(frame, name) {
                    return None;
                }
                Some(Self::delete_stmt_for(assign_span, &local.name, &local.ty))
            },
            None => None,
        }
    }
}

} // verus!
