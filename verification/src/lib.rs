//! A manager for system-wide keyboard shortcuts: identifier allocation, the
//! table from identifiers to callbacks and extra-key gates, and the dispatch
//! rule applied when the operating system reports a matching key event.
//!
//! The operating system's own part of the exchange — binding a hotkey,
//! releasing it, delivering the next message, answering a key-state query —
//! is the caller's: each operation here takes the outcome of the relevant
//! call as a plain value and states exactly what the manager does with it.

use vstd::prelude::*;

pub mod error;
pub mod keys;

use crate::error::HkError;
use crate::keys::{ModKey, VKey, MOD_NOREPEAT};

verus! {

/// Identifier of a registered hotkey. It is returned when a hotkey is
/// registered and names that registration afterwards, for unregistration
/// and when an event is dispatched. The wrapped value is the numeric id
/// handed to the operating system.
#[derive(Debug, Clone, Copy, Hash, PartialEq, Eq, Structural)]
pub struct HotkeyId(pub i32);

/// What the registration table keeps for one hotkey: the callback to run
/// when the hotkey fires, and the extra keys that must additionally be held
/// at dispatch time. Once created it is never changed.
pub struct HotkeyCallback<F> {
    /// Zero-argument callback executed when the hotkey fires.
    pub callback: F,
    /// Keys, beyond the registered combination, that must all be in the
    /// pressed state at dispatch time for the callback to run.
    pub extra_keys: Vec<VKey>,
}

/// The arguments one operating-system registration call must be made with:
/// the identifier the manager will use for the binding, the combined
/// modifier bitmask (always carrying the no-auto-repeat flag), and the
/// native key code.
pub struct RegisterRequest {
    /// Identifier the binding is made under.
    pub id: HotkeyId,
    /// Modifier flags combined with the no-auto-repeat flag.
    pub modifier_mask: u32,
    /// Native code of the key that triggers the combination.
    pub vk_code: i32,
}

/// One delivered message from the operating system's event queue, together
/// with the key states observed at dispatch time: whether the message is of
/// the hotkey-match class, the identifier it carries, and the keys found in
/// the pressed state when the extra-key gate was evaluated.
pub struct HotkeyEvent {
    /// Whether the message is of the hotkey-match class.
    pub is_hotkey: bool,
    /// The identifier the message carries.
    pub id: HotkeyId,
    /// The keys observed in the pressed state at dispatch time.
    pub pressed: Vec<VKey>,
}

/// Holds whenever every key of `extra` occurs in `pressed`: the extra-key
/// gate that must pass before a callback runs.
pub open spec fn gate_passes(extra: Seq<VKey>, pressed: Seq<VKey>) -> bool {
    forall|i: int| 0 <= i < extra.len() ==> pressed.contains(extra[i])
}

/// Registers and manages hotkeys and their callbacks.
///
/// The manager owns the identifier allocator's counter and the table from
/// identifiers to registrations, and keeps them in lock-step with the
/// operating system's own bindings: a table entry is created only on a
/// reported successful binding and removed only on a reported successful
/// release.
pub struct HotkeyManager<F> {
    /// The identifier the next registration attempt will consume. Strictly
    /// greater than every identifier in the table.
    pub id_offset: i32,
    /// The registration table, in registration order; identifiers are
    /// unique.
    pub handlers: Vec<(HotkeyId, HotkeyCallback<F>)>,
}

impl<F> HotkeyManager<F> {
    /// The registration table as a sequence of (identifier, registration)
    /// pairs, in registration order.
    pub open spec fn table(self) -> Seq<(HotkeyId, HotkeyCallback<F>)> {
        self.handlers@
    }

    /// Whether `id` names a live registration.
    pub open spec fn has_id(self, id: HotkeyId) -> bool {
        exists|i: int| 0 <= i < self.table().len() && self.table()[i].0 == id
    }

    /// The position of `id` in the table. Meaningful only when `has_id`
    /// holds; under `wf` it is then unique.
    pub open spec fn index_of(self, id: HotkeyId) -> int {
        choose|i: int| 0 <= i < self.table().len() && self.table()[i].0 == id
    }

    /// The extra-key gate list of the registration `id` names.
    pub open spec fn extra_keys_of(self, id: HotkeyId) -> Seq<VKey> {
        self.table()[self.index_of(id)].1.extra_keys@
    }

    /// The callback of the registration `id` names.
    pub open spec fn callback_of(self, id: HotkeyId) -> F {
        self.table()[self.index_of(id)].1.callback
    }

    /// Well-formedness: no two live registrations share an identifier, and
    /// every live identifier is below the allocator's counter, so the next
    /// allocated identifier is always fresh. Constructors establish this
    /// and every operation preserves it.
    pub open spec fn wf(self) -> bool {
        &&& forall|i: int, j: int|
            0 <= i < j < self.table().len() ==> self.table()[i].0 != self.table()[j].0
        &&& forall|i: int| 0 <= i < self.table().len() ==> (#[trigger] self.table()[i]).0.0 < self.id_offset
    }

    /// Create a manager whose identifiers start at 0.
    pub fn new() -> (r: HotkeyManager<F>)
        ensures
            r.wf(),
            r.id_offset == 0,
            r.table().len() == 0,
    {
        HotkeyManager { id_offset: 0, handlers: Vec::new() }
    }

    /// Create a manager whose identifiers start at `id_offset`, so that
    /// several managers in one process can partition the identifier space
    /// by convention.
    pub fn new_with_id_offset(id_offset: i32) -> (r: HotkeyManager<F>)
        ensures
            r.wf(),
            r.id_offset == id_offset,
            r.table().len() == 0,
    {
        HotkeyManager { id_offset, handlers: Vec::new() }
    }

    /// The identifier the next registration attempt will consume.
    pub fn next_id(&self) -> (r: HotkeyId)
        ensures
            r == (HotkeyId(self.id_offset)),
    {
        HotkeyId(self.id_offset)
    }

    /// The number of live registrations.
    pub fn registered_count(&self) -> (r: usize)
        ensures
            r == self.table().len(),
    {
        self.handlers.len()
    }

    /// The arguments the operating-system registration call for `key` held
    /// with `key_modifiers` must be made with. The modifier mask always
    /// carries the no-auto-repeat flag, so holding the combination down
    /// does not re-fire the event on every repeat tick.
    pub fn register_request(&self, key: VKey, key_modifiers: &Vec<ModKey>) -> (r: RegisterRequest)
        ensures
            r.id == (HotkeyId(self.id_offset)),
            r.modifier_mask == ModKey::spec_combine(key_modifiers@) | MOD_NOREPEAT,
            r.vk_code == key.spec_vk_code(),
    {
        RegisterRequest {
            id: HotkeyId(self.id_offset),
            modifier_mask: ModKey::combine(key_modifiers) | MOD_NOREPEAT,
            vk_code: key.to_vk_code(),
        }
    }

    /// Record the outcome of one registration attempt whose operating-system
    /// call was made with this manager's current `register_request`.
    ///
    /// The identifier is consumed whether or not the attempt succeeded, and
    /// is never handed out again by this manager. On a reported success the
    /// registration enters the table with the given extra-key gate list; on
    /// a reported failure the table is left exactly as it was and a
    /// `RegistrationFailed` error is returned.
    pub fn register_extrakeys(
        &mut self,
        extra_keys: &Vec<VKey>,
        callback: F,
        os_accepted: bool,
    ) -> (r: Result<HotkeyId, HkError>)
        requires
            old(self).wf(),
            old(self).id_offset < i32::MAX,
        ensures
            final(self).wf(),
            final(self).id_offset == old(self).id_offset + 1,
            os_accepted ==> {
                &&& r == Ok::<HotkeyId, HkError>(HotkeyId(old(self).id_offset))
                &&& final(self).table().len() == old(self).table().len() + 1
                &&& final(self).table().subrange(0, old(self).table().len() as int)
                    =~= old(self).table()
                &&& final(self).table().last().0 == (HotkeyId(old(self).id_offset))
                &&& final(self).table().last().1.extra_keys@ == extra_keys@
                &&& final(self).table().last().1.callback == callback
            },
            !os_accepted ==> {
                &&& r == Err::<HotkeyId, HkError>(HkError::RegistrationFailed)
                &&& final(self).table() == old(self).table()
            },
    {
        let register_id = HotkeyId(self.id_offset);
        self.id_offset = self.id_offset + 1;

        if !os_accepted {
            proof {
                assert(self.table() =~= old(self).table());
            }
            return Err(HkError::RegistrationFailed);
        }

        let mut gate: Vec<VKey> = Vec::new();
        let mut i: usize = 0;
        while i < extra_keys.len()
            invariant
                i <= extra_keys.len(),
                gate@ =~= extra_keys@.subrange(0, i as int),
            decreases extra_keys.len() - i,
        {
            gate.push(extra_keys[i]);
            i = i + 1;
        }
        proof {
            assert(gate@ =~= extra_keys@);
        }

        self.handlers.push((register_id, HotkeyCallback { callback, extra_keys: gate }));
        Ok(register_id)
    }

    /// Same as `register_extrakeys`, but with an empty extra-key gate list.
    pub fn register(&mut self, callback: F, os_accepted: bool) -> (r: Result<HotkeyId, HkError>)
        requires
            old(self).wf(),
            old(self).id_offset < i32::MAX,
        ensures
            final(self).wf(),
            final(self).id_offset == old(self).id_offset + 1,
            os_accepted ==> {
                &&& r == Ok::<HotkeyId, HkError>(HotkeyId(old(self).id_offset))
                &&& final(self).table().len() == old(self).table().len() + 1
                &&& final(self).table().subrange(0, old(self).table().len() as int)
                    =~= old(self).table()
                &&& final(self).table().last().0 == (HotkeyId(old(self).id_offset))
                &&& final(self).table().last().1.extra_keys@ == Seq::<VKey>::empty()
                &&& final(self).table().last().1.callback == callback
            },
            !os_accepted ==> {
                &&& r == Err::<HotkeyId, HkError>(HkError::RegistrationFailed)
                &&& final(self).table() == old(self).table()
            },
    {
        let no_extra: Vec<VKey> = Vec::new();
        let r = self.register_extrakeys(&no_extra, callback, os_accepted);
        proof {
            if os_accepted {
                assert(final(self).table().last().1.extra_keys@ =~= Seq::<VKey>::empty());
            }
        }
        r
    }

    /// Record the outcome of one operating-system call that tried to
    /// release the binding of `id`.
    ///
    /// On a reported failure the table entry — if any — is left in place,
    /// so the manager's state never drifts ahead of the operating system's,
    /// and an `UnregistrationFailed` error is returned. On a reported
    /// success the entry named by `id` is removed; identifiers are not
    /// reused afterwards.
    pub fn unregister(&mut self, id: HotkeyId, os_released: bool) -> (r: Result<(), HkError>)
        requires
            old(self).wf(),
        ensures
            final(self).wf(),
            final(self).id_offset == old(self).id_offset,
            !os_released ==> {
                &&& r == Err::<(), HkError>(HkError::UnregistrationFailed)
                &&& final(self).table() == old(self).table()
            },
            os_released ==> r == Ok::<(), HkError>(()),
            os_released && old(self).has_id(id) ==> final(self).table() =~= old(
                self,
            ).table().remove(old(self).index_of(id)),
            os_released && !old(self).has_id(id) ==> final(self).table() == old(self).table(),
    {
        if !os_released {
            return Err(HkError::UnregistrationFailed);
        }

        let n = self.handlers.len();
        let mut i: usize = 0;
        while i < n
            invariant
                i <= n,
                n == self.table().len(),
                *self == *old(self),
                old(self).wf(),
                os_released,
                forall|k: int| 0 <= k < i ==> self.table()[k].0 != id,
            decreases n - i,
        {
            if self.handlers[i].0 == id {
                proof {
                    assert(old(self).has_id(id));
                    let j = old(self).index_of(id);
                    assert(0 <= j < old(self).table().len() && old(self).table()[j].0 == id);
                    if j != i {
                        let t0 = old(self).table();
                        if j < i {
                            assert(t0[j].0 != t0[i as int].0);
                        } else {
                            assert(t0[i as int].0 != t0[j].0);
                        }
                    }
                    assert(j == i);
                }
                self.handlers.remove(i);
                proof {
                    let t0 = old(self).table();
                    let t1 = self.table();
                    t0.remove_ensures(i as int);
                    assert(t1 =~= t0.remove(i as int));
                    assert forall|p: int, q: int| 0 <= p < q < t1.len() implies t1[p].0
                        != t1[q].0 by {
                        let p0: int = if p < i { p } else { p + 1 };
                        let q0: int = if q < i { q } else { q + 1 };
                        assert(t1[p] == t0[p0] && t1[q] == t0[q0]);
                        assert(t0[p0].0 != t0[q0].0);
                    }
                    assert forall|p: int| 0 <= p < t1.len() implies (#[trigger] t1[p]).0.0
                        < self.id_offset by {
                        let p0: int = if p < i { p } else { p + 1 };
                        assert(t1[p] == t0[p0]);
                    }
                }
                return Ok(());
            }
            i = i + 1;
        }
        proof {
            assert(!old(self).has_id(id));
        }
        Ok(())
    }
}

/// Index of the first `false` in `s`, or `s.len()` when there is none: the
/// point at which a bulk unregistration walk stops.
pub open spec fn first_failure(s: Seq<bool>) -> int
    decreases s.len(),
{
    if s.len() == 0 {
        0
    } else if !s[0] {
        0
    } else {
        1 + first_failure(s.skip(1))
    }
}

proof fn lemma_first_failure_at(s: Seq<bool>, i: int)
    requires
        0 <= i <= s.len(),
        forall|j: int| 0 <= j < i ==> s[j],
        i < s.len() ==> !s[i],
    ensures
        first_failure(s) == i,
    decreases s.len(),
{
    if s.len() == 0 {
    } else if i == 0 {
    } else {
        assert forall|j: int| 0 <= j < i - 1 implies s.skip(1)[j] by {
            assert(s.skip(1)[j] == s[j + 1]);
        }
        assert(i - 1 < s.skip(1).len() ==> !s.skip(1)[i - 1]);
        lemma_first_failure_at(s.skip(1), i - 1);
    }
}

impl<F> HotkeyManager<F> {
    /// Walk a snapshot of the registration table in registration order and
    /// record, entry by entry, the outcome of the operating-system call
    /// that tried to release each binding; `os_released[k]` is the outcome
    /// for the `k`-th entry of the walk.
    ///
    /// The walk stops at the first reported failure: entries released
    /// before it stay removed, the failing entry and every entry not yet
    /// visited stay in the table, and an `UnregistrationFailed` error is
    /// returned. When every release is reported successful the table is
    /// left empty.
    pub fn unregister_all(&mut self, os_released: &Vec<bool>) -> (r: Result<(), HkError>)
        requires
            old(self).wf(),
            os_released@.len() == old(self).table().len(),
        ensures
            final(self).wf(),
            final(self).id_offset == old(self).id_offset,
            final(self).table() =~= old(self).table().skip(first_failure(os_released@)),
            first_failure(os_released@) == os_released@.len() ==> r == Ok::<(), HkError>(()),
            first_failure(os_released@) < os_released@.len() ==> r == Err::<(), HkError>(
                HkError::UnregistrationFailed,
            ),
    {
        let n = self.handlers.len();
        let mut i: usize = 0;
        while i < n
            invariant
                i <= n,
                n == os_released@.len(),
                n == old(self).table().len(),
                old(self).wf(),
                self.id_offset == old(self).id_offset,
                self.table() =~= old(self).table().skip(i as int),
                forall|j: int| 0 <= j < i ==> os_released@[j],
            decreases n - i,
        {
            if !os_released[i] {
                proof {
                    lemma_first_failure_at(os_released@, i as int);
                    lemma_wf_of_skip(*old(self), *self, i as int);
                }
                return Err(HkError::UnregistrationFailed);
            }
            self.handlers.remove(0);
            proof {
                assert(self.table() =~= old(self).table().skip(i as int).remove(0));
                assert(self.table() =~= old(self).table().skip(i + 1));
            }
            i = i + 1;
        }
        proof {
            lemma_first_failure_at(os_released@, n as int);
            lemma_wf_of_skip(*old(self), *self, n as int);
        }
        Ok(())
    }
}

/// Does `key` occur in `keys`?
fn vec_contains_key(keys: &Vec<VKey>, key: VKey) -> (r: bool)
    ensures
        r == keys@.contains(key),
{
    let n = keys.len();
    let mut i: usize = 0;
    while i < n
        invariant
            i <= n,
            n == keys@.len(),
            forall|k: int| 0 <= k < i ==> keys@[k] != key,
        decreases n - i,
    {
        if keys[i] == key {
            proof {
                assert(keys@[i as int] == key);
            }
            return true;
        }
        i = i + 1;
    }
    false
}

/// Evaluate the extra-key gate: are all keys of `extra` found in the
/// pressed set?
pub fn extra_keys_pressed(extra: &Vec<VKey>, pressed: &Vec<VKey>) -> (r: bool)
    ensures
        r == gate_passes(extra@, pressed@),
{
    let n = extra.len();
    let mut i: usize = 0;
    while i < n
        invariant
            i <= n,
            n == extra@.len(),
            forall|k: int| 0 <= k < i ==> pressed@.contains(extra@[k]),
        decreases n - i,
    {
        if !vec_contains_key(pressed, extra[i]) {
            proof {
                assert(!pressed@.contains(extra@[i as int]));
            }
            return false;
        }
        i = i + 1;
    }
    true
}

impl<F> HotkeyManager<F> {
    /// Whether `event` makes this manager run a callback: the message is
    /// of the hotkey-match class, its identifier names a live
    /// registration, and every key of that registration's extra-key gate
    /// list was observed pressed.
    pub open spec fn fires(self, e: HotkeyEvent) -> bool {
        &&& e.is_hotkey
        &&& self.has_id(e.id)
        &&& gate_passes(self.extra_keys_of(e.id), e.pressed@)
    }

    /// Dispatch one delivered event: apply the defensive message-class
    /// check, look the identifier up in the table, evaluate the extra-key
    /// gate against the observed key states, and, only if all of that
    /// passes, run the stored callback and hand its result back. Every
    /// other outcome is a normal non-event, not an error.
    pub fn dispatch<T>(&self, event: &HotkeyEvent) -> (r: Option<T>) where F: Fn() -> T
        requires
            self.wf(),
            forall|i: int|
                0 <= i < self.table().len() ==> call_requires(
                    (#[trigger] self.table()[i]).1.callback,
                    (),
                ),
        ensures
            (r is Some) <==> self.fires(*event),
            r matches Some(v) ==> call_ensures(self.callback_of(event.id), (), v),
    {
        if !event.is_hotkey {
            return None;
        }

        let n = self.handlers.len();
        let mut i: usize = 0;
        while i < n
            invariant
                i <= n,
                n == self.table().len(),
                self.wf(),
                event.is_hotkey,
                forall|k: int|
                    0 <= k < n ==> call_requires((#[trigger] self.table()[k]).1.callback, ()),
                forall|k: int| 0 <= k < i ==> self.table()[k].0 != event.id,
            decreases n - i,
        {
            if self.handlers[i].0 == event.id {
                proof {
                    assert(self.has_id(event.id));
                    let j = self.index_of(event.id);
                    assert(0 <= j < self.table().len() && self.table()[j].0 == event.id);
                    if j != i {
                        if j < i {
                            assert(self.table()[j].0 != self.table()[i as int].0);
                        } else {
                            assert(self.table()[i as int].0 != self.table()[j].0);
                        }
                    }
                    assert(j == i);
                }
                if extra_keys_pressed(&self.handlers[i].1.extra_keys, &event.pressed) {
                    let cb = &self.handlers[i].1.callback;
                    let v = cb();
                    return Some(v);
                } else {
                    return None;
                }
            }
            i = i + 1;
        }
        proof {
            assert(!self.has_id(event.id));
        }
        None
    }

    /// Dispatch the given events in turn, discarding the callbacks'
    /// results, and report how many of them fired a callback.
    pub fn event_loop<T>(&self, events: &Vec<HotkeyEvent>) -> (fired: usize) where F: Fn() -> T
        requires
            self.wf(),
            forall|i: int|
                0 <= i < self.table().len() ==> call_requires(
                    (#[trigger] self.table()[i]).1.callback,
                    (),
                ),
        ensures
            fired == count_fired(*self, events@),
    {
        let n = events.len();
        let mut i: usize = 0;
        let mut fired: usize = 0;
        while i < n
            invariant
                i <= n,
                n == events@.len(),
                self.wf(),
                forall|k: int|
                    0 <= k < self.table().len() ==> call_requires(
                        (#[trigger] self.table()[k]).1.callback,
                        (),
                    ),
                fired == count_fired(*self, events@.subrange(0, i as int)),
                fired <= i,
            decreases n - i,
        {
            let r: Option<T> = self.dispatch(&events[i]);
            proof {
                assert(events@.subrange(0, i + 1).drop_last() =~= events@.subrange(0, i as int));
                assert(events@.subrange(0, i + 1).last() == events@[i as int]);
            }
            if r.is_some() {
                fired = fired + 1;
            }
            i = i + 1;
        }
        proof {
            assert(events@.subrange(0, n as int) =~= events@);
        }
        fired
    }
}

/// How many of `events`, dispatched in turn against `m`, fire a callback.
pub open spec fn count_fired<F>(m: HotkeyManager<F>, events: Seq<HotkeyEvent>) -> nat
    decreases events.len(),
{
    if events.len() == 0 {
        0nat
    } else {
        count_fired(m, events.drop_last()) + if m.fires(events.last()) {
            1nat
        } else {
            0nat
        }
    }
}

impl<F> HotkeyManager<F> {
    /// Whether `id` names a live registration.
    pub fn is_registered(&self, id: HotkeyId) -> (r: bool)
        ensures
            r == self.has_id(id),
    {
        let n = self.handlers.len();
        let mut i: usize = 0;
        while i < n
            invariant
                i <= n,
                n == self.table().len(),
                forall|k: int| 0 <= k < i ==> self.table()[k].0 != id,
            decreases n - i,
        {
            if self.handlers[i].0 == id {
                proof {
                    assert(self.table()[i as int].0 == id);
                }
                return true;
            }
            i = i + 1;
        }
        false
    }

    /// A snapshot of the live identifiers, in registration order.
    pub fn registered_ids(&self) -> (r: Vec<HotkeyId>)
        ensures
            r@.len() == self.table().len(),
            forall|i: int| 0 <= i < r@.len() ==> r@[i] == self.table()[i].0,
    {
        let n = self.handlers.len();
        let mut ids: Vec<HotkeyId> = Vec::new();
        let mut i: usize = 0;
        while i < n
            invariant
                i <= n,
                n == self.table().len(),
                ids@.len() == i,
                forall|k: int| 0 <= k < i ==> ids@[k] == self.table()[k].0,
            decreases n - i,
        {
            ids.push(self.handlers[i].0);
            i = i + 1;
        }
        ids
    }

    /// The extra-key gate list of the registration `id` names, or nothing
    /// when `id` names no live registration.
    pub fn registered_extra_keys(&self, id: HotkeyId) -> (r: Option<Vec<VKey>>)
        requires
            self.wf(),
        ensures
            self.has_id(id) ==> (r matches Some(v) && v@ == self.extra_keys_of(id)),
            !self.has_id(id) ==> r is None,
    {
        let n = self.handlers.len();
        let mut i: usize = 0;
        while i < n
            invariant
                i <= n,
                n == self.table().len(),
                self.wf(),
                forall|k: int| 0 <= k < i ==> self.table()[k].0 != id,
            decreases n - i,
        {
            if self.handlers[i].0 == id {
                proof {
                    assert(self.has_id(id));
                    let j = self.index_of(id);
                    assert(0 <= j < self.table().len() && self.table()[j].0 == id);
                    if j != i {
                        if j < i {
                            assert(self.table()[j].0 != self.table()[i as int].0);
                        } else {
                            assert(self.table()[i as int].0 != self.table()[j].0);
                        }
                    }
                    assert(j == i);
                }
                let src = &self.handlers[i].1.extra_keys;
                let m = src.len();
                let mut keys: Vec<VKey> = Vec::new();
                let mut k: usize = 0;
                while k < m
                    invariant
                        k <= m,
                        m == src@.len(),
                        keys@ =~= src@.subrange(0, k as int),
                    decreases m - k,
                {
                    keys.push(src[k]);
                    k = k + 1;
                }
                proof {
                    assert(keys@ =~= src@);
                }
                return Some(keys);
            }
            i = i + 1;
        }
        proof {
            assert(!self.has_id(id));
        }
        None
    }
}

/// No two live registrations of one well-formed manager ever share an
/// identifier: the table keeps live identifiers pairwise distinct.
pub proof fn lemma_live_ids_distinct<F>(m: HotkeyManager<F>, i: int, j: int)
    requires
        m.wf(),
        0 <= i < m.table().len(),
        0 <= j < m.table().len(),
        i != j,
    ensures
        m.table()[i].0 != m.table()[j].0,
{
    if i < j {
        assert(m.table()[i].0 != m.table()[j].0);
    } else {
        assert(m.table()[j].0 != m.table()[i].0);
    }
}

/// The identifier a well-formed manager's next registration attempt
/// consumes is held by no live registration; together with the strict
/// growth of `id_offset` ensured by every registration attempt, every
/// identifier `register` ever returns is unique over the manager's
/// lifetime, whether or not the attempts succeed.
pub proof fn lemma_next_id_fresh<F>(m: HotkeyManager<F>, i: int)
    requires
        m.wf(),
        0 <= i < m.table().len(),
    ensures
        m.table()[i].0.0 < m.id_offset,
        m.table()[i].0 != (HotkeyId(m.id_offset)),
{
}

/// The most significant bit of the operating system's raw key-state word
/// marks "currently pressed"; for a signed sixteen-bit word that is its
/// sign bit.
pub fn keystate_is_pressed(raw_state: i16) -> (r: bool)
    ensures
        r == (raw_state < 0),
{
    let bit: u32 = (raw_state as u32) >> 31u32;
    proof {
        assert((raw_state as u32) >> 31u32 == 1u32 <==> raw_state < 0) by (bit_vector);
    }
    bit == 1
}

/// The table suffix left by a partial unregistration walk is itself
/// well formed.
proof fn lemma_wf_of_skip<F>(m0: HotkeyManager<F>, m1: HotkeyManager<F>, k: int)
    requires
        m0.wf(),
        0 <= k <= m0.table().len(),
        m1.table() =~= m0.table().skip(k),
        m1.id_offset == m0.id_offset,
    ensures
        m1.wf(),
{
    assert forall|p: int, q: int| 0 <= p < q < m1.table().len() implies m1.table()[p].0
        != m1.table()[q].0 by {
        assert(m1.table()[p] == m0.table()[p + k] && m1.table()[q] == m0.table()[q + k]);
    }
    assert forall|p: int| 0 <= p < m1.table().len() implies (#[trigger] m1.table()[p]).0.0
        < m1.id_offset by {
        assert(m1.table()[p] == m0.table()[p + k]);
    }
}

} // verus!
