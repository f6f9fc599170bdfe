//! One place that admits all state transitions of a node.
//!
//! Changes of epoch and changes of mode exclude each other: only one transition can be under way,
//! and a new one cannot start right after the last one was completed.

use vstd::prelude::*;

use crate::clock::{since, spec_since, Clock, NANOS_PER_MS};
use crate::deps::{debug_option_text, option_debug_text};
use crate::text::{copy_str, decimal, decimal_string};

verus! {

/// The least time between two transitions, in nanoseconds.
pub const DEFAULT_DEBOUNCE: u128 = 3_000_000_000;

/// What a transition changes.
#[derive(Debug)]
pub enum TransitionType {
    /// The epoch.
    EpochChange { from_epoch: u64, to_epoch: u64 },
    /// The mode.
    ModeChange { from_mode: String, to_mode: String },
    /// The epoch, and with it the mode.
    EpochAndModeChange { from_epoch: u64, to_epoch: u64, from_mode: String, to_mode: String },
}

/// `Epoch(from → to)`.
pub open spec fn epoch_change_text(from: u64, to: u64) -> Seq<char> {
    "Epoch("@ + decimal(from as nat) + " → "@ + decimal(to as nat) + ")"@
}

/// `Mode(from → to)`.
pub open spec fn mode_change_text(from: Seq<char>, to: Seq<char>) -> Seq<char> {
    "Mode("@ + from + " → "@ + to + ")"@
}

impl TransitionType {
    /// The transition in words.
    pub open spec fn text(&self) -> Seq<char> {
        match self {
            TransitionType::EpochChange { from_epoch, to_epoch } => epoch_change_text(
                *from_epoch,
                *to_epoch,
            ),
            TransitionType::ModeChange { from_mode, to_mode } => mode_change_text(
                from_mode@,
                to_mode@,
            ),
            TransitionType::EpochAndModeChange { from_epoch, to_epoch, from_mode, to_mode } => {
                epoch_change_text(*from_epoch, *to_epoch) + " + "@ + mode_change_text(
                    from_mode@,
                    to_mode@,
                )
            },
        }
    }

    /// The transition in words.
    pub fn to_text(&self) -> (r: String)
        ensures
            r@ == self.text(),
    {
        match self {
            TransitionType::EpochChange { from_epoch, to_epoch } => epoch_text(
                *from_epoch,
                *to_epoch,
            ),
            TransitionType::ModeChange { from_mode, to_mode } => mode_text(from_mode, to_mode),
            TransitionType::EpochAndModeChange { from_epoch, to_epoch, from_mode, to_mode } => {
                let mut r = epoch_text(*from_epoch, *to_epoch);
                r.append(" + ");
                let mode = mode_text(from_mode, to_mode);
                r.append(mode.as_str());
                r
            },
        }
    }
}

fn epoch_text(from: u64, to: u64) -> (r: String)
    ensures
        r@ == epoch_change_text(from, to),
{
    let mut r = copy_str("Epoch(");
    let a = decimal_string(from);
    r.append(a.as_str());
    r.append(" → ");
    let b = decimal_string(to);
    r.append(b.as_str());
    r.append(")");
    r
}

fn mode_text(from: &String, to: &String) -> (r: String)
    ensures
        r@ == mode_change_text(from@, to@),
{
    let mut r = copy_str("Mode(");
    r.append(from.as_str());
    r.append(" → ");
    r.append(to.as_str());
    r.append(")");
    r
}

/// Why a transition cannot start.
#[allow(inconsistent_fields)]
#[derive(Debug)]
pub enum TransitionError {
    /// The requested epoch is current or past.
    EpochAlreadyCurrent { current: u64, requested: u64 },
    /// The requested mode is current.
    ModeAlreadyCurrent,
    /// Another transition is under way.
    TransitionInProgress { current: Option<String>, requested: String },
    /// The last transition was completed too recently.
    Debouncing { remaining_ms: u64 },
}

/// The characters of a text that may be absent.
pub open spec fn optional_text(s: Option<String>) -> Option<Seq<char>> {
    match s {
        Some(t) => Some(t@),
        None => None,
    }
}

impl TransitionError {
    /// The error in words.
    pub open spec fn text(&self) -> Seq<char> {
        match self {
            TransitionError::EpochAlreadyCurrent { current, requested } => {
                "Epoch "@ + decimal(*current as nat) + " already current (requested: "@ + decimal(
                    *requested as nat,
                ) + ")"@
            },
            TransitionError::ModeAlreadyCurrent => "Mode already current"@,
            TransitionError::TransitionInProgress { current, requested } => {
                "Transition in progress "@ + debug_option_text(optional_text(*current))
                    + ", rejected "@ + requested@
            },
            TransitionError::Debouncing { remaining_ms } => "Debouncing - "@ + decimal(
                *remaining_ms as nat,
            ) + "ms remaining"@,
        }
    }

    /// The error in words.
    pub fn to_text(&self) -> (r: String)
        ensures
            r@ == self.text(),
    {
        match self {
            TransitionError::EpochAlreadyCurrent { current, requested } => {
                let mut r = copy_str("Epoch ");
                let a = decimal_string(*current);
                r.append(a.as_str());
                r.append(" already current (requested: ");
                let b = decimal_string(*requested);
                r.append(b.as_str());
                r.append(")");
                r
            },
            TransitionError::ModeAlreadyCurrent => copy_str("Mode already current"),
            TransitionError::TransitionInProgress { current, requested } => {
                let mut r = copy_str("Transition in progress ");
                let a = option_debug_text(current);
                r.append(a.as_str());
                r.append(", rejected ");
                r.append(requested.as_str());
                r
            },
            TransitionError::Debouncing { remaining_ms } => {
                let mut r = copy_str("Debouncing - ");
                let a = decimal_string(*remaining_ms);
                r.append(a.as_str());
                r.append("ms remaining");
                r
            },
        }
    }
}

/// The name of a mode.
pub open spec fn mode_name_text(is_validator: bool) -> Seq<char> {
    if is_validator {
        "Validator"@
    } else {
        "SyncOnly"@
    }
}

fn mode_name(is_validator: bool) -> (r: String)
    ensures
        r@ == mode_name_text(is_validator),
{
    if is_validator {
        copy_str("Validator")
    } else {
        copy_str("SyncOnly")
    }
}

/// A transition that is under way. Times are nanoseconds of the manager's clock.
#[derive(Debug)]
pub struct RunningTransition {
    pub transition: TransitionType,
    /// Who asked for it.
    pub source: String,
    pub started_at: u128,
}

/// The text of a transition and who asked for it.
pub open spec fn request_text(transition: TransitionType, source: Seq<char>) -> Seq<char> {
    transition.text() + " by "@ + source
}

fn describe_request(transition: &TransitionType, source: &str) -> (r: String)
    ensures
        r@ == request_text(*transition, source@),
{
    let mut r = transition.to_text();
    r.append(" by ");
    r.append(source);
    r
}

/// Decides which transition may run: at most one at a time, and not too soon after another.
#[derive(Debug)]
pub struct StateTransitionManager {
    pub clock: Clock,
    pub epoch: u64,
    pub validator: bool,
    /// The transition that is under way, if any.
    pub running: Option<RunningTransition>,
    /// When the last transition was completed.
    pub last_transition: Option<u128>,
    /// The least time between two transitions.
    pub debounce: u128,
}

impl StateTransitionManager {
    /// How long the next transition has to wait at time `now`, if it does.
    pub open spec fn debounce_left(&self, now: u128) -> Option<u128> {
        match self.last_transition {
            Some(last) if spec_since(now, last) < self.debounce => Some(
                (self.debounce - spec_since(now, last)) as u128,
            ),
            _ => None,
        }
    }

    /// A transition may start at time `now`: none is under way, and the last one is long enough
    /// ago.
    pub open spec fn may_start(&self, now: u128) -> bool {
        self.running is None && self.debounce_left(now) is None
    }

    /// A transition has been under way for more than `max_age` at time `now`.
    pub open spec fn is_stuck(&self, max_age: u128, now: u128) -> bool {
        self.running matches Some(t) && spec_since(now, t.started_at) > max_age
    }

    /// What stays the same when a transition starts or is refused.
    pub open spec fn same_state(&self, other: &StateTransitionManager) -> bool {
        &&& self.epoch == other.epoch
        &&& self.validator == other.validator
        &&& self.last_transition == other.last_transition
        &&& self.debounce == other.debounce
    }

    /// A manager without a transition under way.
    pub fn new(initial_epoch: u64, is_validator: bool) -> (m: StateTransitionManager)
        ensures
            m.epoch == initial_epoch,
            m.validator == is_validator,
            m.running is None,
            m.last_transition is None,
            m.debounce == DEFAULT_DEBOUNCE,
    {
        StateTransitionManager {
            clock: Clock::start(),
            epoch: initial_epoch,
            validator: is_validator,
            running: None,
            last_transition: None,
            debounce: DEFAULT_DEBOUNCE,
        }
    }

    /// The current epoch.
    pub fn current_epoch(&self) -> (e: u64)
        ensures
            e == self.epoch,
    {
        self.epoch
    }

    /// Whether the node is a validator.
    pub fn is_validator(&self) -> (r: bool)
        ensures
            r == self.validator,
    {
        self.validator
    }

    /// Whether a transition is under way.
    pub fn is_transition_in_progress(&self) -> (r: bool)
        ensures
            r == (self.running is Some),
    {
        self.running.is_some()
    }

    /// Asks at time `now` for a change to `target_epoch`. Epochs only go forward; skipping some is
    /// fine.
    pub fn try_start_epoch_transition_at(
        &mut self,
        target_epoch: u64,
        source: &str,
        now: u128,
    ) -> (r: Result<(), TransitionError>)
        ensures
            epoch_requested(*old(self), *final(self), target_epoch, source@, now, r),
    {
        if target_epoch <= self.epoch {
            return Err(
                TransitionError::EpochAlreadyCurrent {
                    current: self.epoch,
                    requested: target_epoch,
                },
            );
        }
        let transition = TransitionType::EpochChange {
            from_epoch: self.epoch,
            to_epoch: target_epoch,
        };
        self.try_start(transition, source, now)
    }

    /// `e` is the error for a request: `already` if the node is there already, a conflict if a
    /// transition is under way, and otherwise the rest of the debounce time.
    pub open spec fn refusal(
        &self,
        e: TransitionError,
        is_there: bool,
        already: TransitionError,
        request: Seq<char>,
        now: u128,
    ) -> bool {
        if is_there {
            e == already
        } else {
            match self.running {
                Some(t) => e matches TransitionError::TransitionInProgress { current, requested }
                    && optional_text(current) == Some(request_text(t.transition, t.source@))
                    && requested@ == request,
                None => e == (TransitionError::Debouncing {
                    remaining_ms: truncated_ms(self.debounce_left(now)->0),
                }),
            }
        }
    }

    /// Asks at time `now` for a change of mode.
    pub fn try_start_mode_transition_at(
        &mut self,
        to_validator: bool,
        source: &str,
        now: u128,
    ) -> (r: Result<(), TransitionError>)
        ensures
            mode_requested(*old(self), *final(self), to_validator, source@, now, r),
    {
        if self.validator == to_validator {
            return Err(TransitionError::ModeAlreadyCurrent);
        }
        let transition = TransitionType::ModeChange {
            from_mode: mode_name(self.validator),
            to_mode: mode_name(to_validator),
        };
        self.try_start(transition, source, now)
    }

    fn try_start(
        &mut self,
        transition: TransitionType,
        source: &str,
        now: u128,
    ) -> (r: Result<(), TransitionError>)
        ensures
            final(self).same_state(old(self)),
            r is Ok <==> old(self).may_start(now),
            r is Err ==> final(self).running == old(self).running,
            r is Ok ==> (final(self).running matches Some(t) && t.source@ == source@
                && t.started_at == now && t.transition == transition),
            r matches Err(e) ==> old(self).refusal(
                e,
                false,
                TransitionError::ModeAlreadyCurrent,
                request_text(transition, source@),
                now,
            ),
    {
        let conflict = match &self.running {
            Some(t) => Some(describe_request(&t.transition, t.source.as_str())),
            None => None,
        };
        if conflict.is_some() {
            return Err(
                TransitionError::TransitionInProgress {
                    current: conflict,
                    requested: describe_request(&transition, source),
                },
            );
        }
        if let Some(last) = self.last_transition {
            let elapsed: u128 = since(now, last);
            if elapsed < self.debounce {
                return Err(
                    TransitionError::Debouncing { remaining_ms: whole_ms(self.debounce - elapsed) },
                );
            }
        }
        self.running = Some(
            RunningTransition { transition, source: copy_str(source), started_at: now },
        );
        Ok(())
    }

    /// Asks for a change to `target_epoch` now.
    pub fn try_start_epoch_transition(&mut self, target_epoch: u64, source: &str) -> (r: Result<
        (),
        TransitionError,
    >)
        ensures
            exists|now: u128| #[trigger]
                epoch_requested(*old(self), *final(self), target_epoch, source@, now, r),
    {
        let now: u128 = self.clock.now();
        self.try_start_epoch_transition_at(target_epoch, source, now)
    }

    /// Asks for a change of mode now.
    pub fn try_start_mode_transition(&mut self, to_validator: bool, source: &str) -> (r: Result<
        (),
        TransitionError,
    >)
        ensures
            exists|now: u128| #[trigger]
                mode_requested(*old(self), *final(self), to_validator, source@, now, r),
    {
        let now: u128 = self.clock.now();
        self.try_start_mode_transition_at(to_validator, source, now)
    }

    /// Completes a change to `new_epoch` at time `now`.
    pub fn complete_epoch_transition_at(&mut self, new_epoch: u64, now: u128)
        ensures
            final(self).epoch == new_epoch,
            final(self).validator == old(self).validator,
            final(self).running is None,
            final(self).last_transition == Some(now),
            final(self).debounce == old(self).debounce,
    {
        self.epoch = new_epoch;
        self.running = None;
        self.last_transition = Some(now);
    }

    /// Completes a change to `new_epoch`.
    pub fn complete_epoch_transition(&mut self, new_epoch: u64)
        ensures
            final(self).epoch == new_epoch,
            final(self).validator == old(self).validator,
            final(self).running is None,
            final(self).last_transition is Some,
            final(self).debounce == old(self).debounce,
    {
        let now: u128 = self.clock.now();
        self.complete_epoch_transition_at(new_epoch, now);
    }

    /// Completes a change of mode at time `now`.
    pub fn complete_mode_transition_at(&mut self, is_validator: bool, now: u128)
        ensures
            final(self).epoch == old(self).epoch,
            final(self).validator == is_validator,
            final(self).running is None,
            final(self).last_transition == Some(now),
            final(self).debounce == old(self).debounce,
    {
        self.validator = is_validator;
        self.running = None;
        self.last_transition = Some(now);
    }

    /// Completes a change of mode.
    pub fn complete_mode_transition(&mut self, is_validator: bool)
        ensures
            final(self).epoch == old(self).epoch,
            final(self).validator == is_validator,
            final(self).running is None,
            final(self).last_transition is Some,
            final(self).debounce == old(self).debounce,
    {
        let now: u128 = self.clock.now();
        self.complete_mode_transition_at(is_validator, now);
    }

    /// Gives up the transition that is under way, for the caller's reason. The state stays what it
    /// was, and a new try may follow at once.
    pub fn fail_transition(&mut self, _reason: &str)
        ensures
            final(self).same_state(old(self)),
            final(self).running is None,
    {
        self.running = None;
    }

    /// Gives up a transition that has been under way for more than `max_age` at time `now`. Returns
    /// whether there was one.
    pub fn force_clear_stale_transition_at(&mut self, max_age: u128, now: u128) -> (cleared: bool)
        ensures
            final(self).same_state(old(self)),
            cleared == old(self).is_stuck(max_age, now),
            cleared ==> final(self).running is None,
            !cleared ==> final(self).running == old(self).running,
    {
        let stale = match &self.running {
            Some(t) => since(now, t.started_at) > max_age,
            None => false,
        };
        if stale {
            self.running = None;
        }
        stale
    }

    /// Gives up a transition that has been under way for more than `max_age` nanoseconds. Returns
    /// whether there was one.
    pub fn force_clear_stale_transition(&mut self, max_age: u128) -> (cleared: bool)
        ensures
            final(self).same_state(old(self)),
            exists|now: u128| cleared == #[trigger] old(self).is_stuck(max_age, now),
            cleared ==> final(self).running is None,
            !cleared ==> final(self).running == old(self).running,
    {
        let now: u128 = self.clock.now();
        self.force_clear_stale_transition_at(max_age, now)
    }

    /// Sets the state, for a node that was restarted.
    pub fn set_current_state(&mut self, epoch: u64, is_validator: bool)
        ensures
            final(self).epoch == epoch,
            final(self).validator == is_validator,
            final(self).running == old(self).running,
            final(self).last_transition == old(self).last_transition,
            final(self).debounce == old(self).debounce,
    {
        self.epoch = epoch;
        self.validator = is_validator;
    }
}

/// What a request for `target_epoch` at time `now` does to `pre`. It is granted if the epoch lies
/// ahead and a transition may start. Nothing but the running transition changes.
pub open spec fn epoch_requested(
    pre: StateTransitionManager,
    post: StateTransitionManager,
    target_epoch: u64,
    source: Seq<char>,
    now: u128,
    r: Result<(), TransitionError>,
) -> bool {
    &&& post.same_state(&pre)
    &&& r is Ok <==> target_epoch > pre.epoch && pre.may_start(now)
    &&& match r {
        Ok(_) => post.running matches Some(t) && t.source@ == source && t.started_at == now
            && t.transition == (TransitionType::EpochChange {
            from_epoch: pre.epoch,
            to_epoch: target_epoch,
        }),
        Err(e) => {
            &&& post.running == pre.running
            &&& pre.refusal(
                e,
                target_epoch <= pre.epoch,
                TransitionError::EpochAlreadyCurrent {
                    current: pre.epoch,
                    requested: target_epoch,
                },
                epoch_change_text(pre.epoch, target_epoch) + " by "@ + source,
                now,
            )
        },
    }
}

/// What a request for a mode at time `now` does to `pre`. It is granted if the mode is another one
/// and a transition may start. Nothing but the running transition changes.
pub open spec fn mode_requested(
    pre: StateTransitionManager,
    post: StateTransitionManager,
    to_validator: bool,
    source: Seq<char>,
    now: u128,
    r: Result<(), TransitionError>,
) -> bool {
    &&& post.same_state(&pre)
    &&& r is Ok <==> to_validator != pre.validator && pre.may_start(now)
    &&& match r {
        Ok(_) => post.running matches Some(t) && t.source@ == source && t.started_at == now && (
        t.transition matches TransitionType::ModeChange { from_mode, to_mode } && from_mode@
            == mode_name_text(pre.validator) && to_mode@ == mode_name_text(to_validator)),
        Err(e) => {
            &&& post.running == pre.running
            &&& pre.refusal(
                e,
                to_validator == pre.validator,
                TransitionError::ModeAlreadyCurrent,
                mode_change_text(mode_name_text(pre.validator), mode_name_text(to_validator))
                    + " by "@ + source,
                now,
            )
        },
    }
}

/// Whole milliseconds, in 64 bits.
pub open spec fn truncated_ms(nanos: u128) -> u64 {
    (nanos as int / NANOS_PER_MS as int) as u64
}

fn whole_ms(nanos: u128) -> (ms: u64)
    ensures
        ms == truncated_ms(nanos),
{
    (nanos / NANOS_PER_MS) as u64
}

/// While a transition is under way no other one can start, whoever asks and whenever.
pub proof fn law_transitions_exclude_each_other(m: StateTransitionManager, now: u128)
    requires
        m.running is Some,
    ensures
        !m.may_start(now),
{
}

/// After a transition was completed the next one can start when, and only when, the debounce time
/// has passed. After one that failed, the wait is that of the last completed one.
pub proof fn law_debounce(m: StateTransitionManager, completed_at: u128, now: u128)
    requires
        m.running is None,
        m.last_transition == Some(completed_at),
        completed_at <= now,
    ensures
        m.may_start(now) <==> now - completed_at >= m.debounce,
{
}

/// What a request for an epoch is answered, on the numbers. It is granted exactly if the epoch is a
/// later one, nothing is under way, and the last completed transition, if any, is as long ago as
/// the debounce time asks. An epoch that is not later is refused as such, before all else; then a
/// conflict; then the time that is left, in whole milliseconds.
pub proof fn law_when_an_epoch_change_starts(
    pre: StateTransitionManager,
    post: StateTransitionManager,
    target: u64,
    source: Seq<char>,
    now: u128,
    r: Result<(), TransitionError>,
)
    requires
        epoch_requested(pre, post, target, source, now, r),
        pre.last_transition matches Some(t) ==> t <= now,
    ensures
        r is Ok <==> target > pre.epoch && pre.running is None && (
        pre.last_transition matches Some(t) ==> now - t >= pre.debounce),
        target <= pre.epoch ==> r == Err::<(), _>(
            TransitionError::EpochAlreadyCurrent { current: pre.epoch, requested: target },
        ),
        target > pre.epoch && pre.running is Some ==> (r matches Err(e)
            && e is TransitionInProgress),
        target > pre.epoch && pre.running is None && r is Err ==> r == Err::<(), _>(
            TransitionError::Debouncing {
                remaining_ms: ((pre.debounce - (now - pre.last_transition->0)) / 1_000_000) as u64,
            },
        ),
        r is Ok ==> (post.running matches Some(t) && t.source@ == source && t.started_at == now
            && t.transition == (TransitionType::EpochChange {
            from_epoch: pre.epoch,
            to_epoch: target,
        })),
        r is Err ==> post.running == pre.running,
        post.epoch == pre.epoch,
        post.validator == pre.validator,
        post.last_transition == pre.last_transition,
        post.debounce == pre.debounce,
{
}

/// What a request for a mode is answered, likewise.
pub proof fn law_when_a_mode_change_starts(
    pre: StateTransitionManager,
    post: StateTransitionManager,
    to_validator: bool,
    source: Seq<char>,
    now: u128,
    r: Result<(), TransitionError>,
)
    requires
        mode_requested(pre, post, to_validator, source, now, r),
        pre.last_transition matches Some(t) ==> t <= now,
    ensures
        r is Ok <==> to_validator != pre.validator && pre.running is None && (
        pre.last_transition matches Some(t) ==> now - t >= pre.debounce),
        to_validator == pre.validator ==> r == Err::<(), _>(TransitionError::ModeAlreadyCurrent),
        to_validator != pre.validator && pre.running is Some ==> (r matches Err(e)
            && e is TransitionInProgress),
        to_validator != pre.validator && pre.running is None && r is Err ==> r == Err::<(), _>(
            TransitionError::Debouncing {
                remaining_ms: ((pre.debounce - (now - pre.last_transition->0)) / 1_000_000) as u64,
            },
        ),
        r is Ok ==> (post.running matches Some(t) && t.source@ == source && t.started_at == now && (
        t.transition matches TransitionType::ModeChange { from_mode, to_mode } && from_mode@ == (
        if pre.validator {
            "Validator"@
        } else {
            "SyncOnly"@
        }) && to_mode@ == (if to_validator {
            "Validator"@
        } else {
            "SyncOnly"@
        }))),
        r is Err ==> post.running == pre.running,
        post.epoch == pre.epoch,
        post.validator == pre.validator,
        post.last_transition == pre.last_transition,
        post.debounce == pre.debounce,
{
}

/// A conflict names both sides: what is under way and what was asked for, each with who asked.
pub proof fn law_conflicts_name_both_sides(
    pre: StateTransitionManager,
    post: StateTransitionManager,
    target: u64,
    source: Seq<char>,
    now: u128,
    r: Result<(), TransitionError>,
)
    requires
        epoch_requested(pre, post, target, source, now, r),
        target > pre.epoch,
        pre.running is Some,
    ensures
        r matches Err(TransitionError::TransitionInProgress { current, requested }) && current
            is Some && current->0@ == pre.running->0.transition.text() + " by "@
            + pre.running->0.source@ && requested@ == (TransitionType::EpochChange {
            from_epoch: pre.epoch,
            to_epoch: target,
        }).text() + " by "@ + source,
{
}

/// Transitions in words.
pub proof fn law_transitions_in_words(a: u64, b: u64, x: String, y: String)
    ensures
        (TransitionType::EpochChange { from_epoch: a, to_epoch: b }).text() == "Epoch("@ + decimal(
            a as nat,
        ) + " → "@ + decimal(b as nat) + ")"@,
        (TransitionType::ModeChange { from_mode: x, to_mode: y }).text() == "Mode("@ + x@ + " → "@
            + y@ + ")"@,
        (TransitionType::EpochAndModeChange {
            from_epoch: a,
            to_epoch: b,
            from_mode: x,
            to_mode: y,
        }).text() == (TransitionType::EpochChange { from_epoch: a, to_epoch: b }).text() + " + "@
            + (TransitionType::ModeChange { from_mode: x, to_mode: y }).text(),
        (TransitionError::EpochAlreadyCurrent { current: a, requested: b }).text() == "Epoch "@
            + decimal(a as nat) + " already current (requested: "@ + decimal(b as nat) + ")"@,
        TransitionError::ModeAlreadyCurrent.text() == "Mode already current"@,
        (TransitionError::Debouncing { remaining_ms: a }).text() == "Debouncing - "@ + decimal(
            a as nat,
        ) + "ms remaining"@,
        (TransitionError::TransitionInProgress { current: Some(x), requested: y }).text()
            == "Transition in progress "@ + debug_option_text(Some(x@)) + ", rejected "@ + y@,
        (TransitionError::TransitionInProgress { current: None, requested: y }).text()
            == "Transition in progress "@ + debug_option_text(None) + ", rejected "@ + y@,
{
}

/// A transition is stuck exactly if it is under way and started more than `max_age` ago.
pub proof fn law_what_is_stuck(m: StateTransitionManager, max_age: u128, now: u128)
    ensures
        m.running is None ==> !m.is_stuck(max_age, now),
        m.running is Some && m.running->0.started_at <= now ==> (m.is_stuck(max_age, now) <==> now
            - m.running->0.started_at > max_age),
{
}

/// What stays the same while a transition starts, is refused or is given up.
pub proof fn law_what_stays_the_same(a: StateTransitionManager, b: StateTransitionManager)
    requires
        a.same_state(&b),
    ensures
        a.epoch == b.epoch,
        a.validator == b.validator,
        a.last_transition == b.last_transition,
        a.debounce == b.debounce,
{
}

/// A manager starts in its epoch and its role, with nothing under way, and keeps three seconds
/// between two transitions.
pub proof fn law_how_a_manager_starts(epoch: u64, validator: bool, m: StateTransitionManager)
    requires
        call_ensures(StateTransitionManager::new, (epoch, validator), m),
    ensures
        m.epoch == epoch,
        m.validator == validator,
        m.running is None,
        m.last_transition is None,
        m.debounce == 3_000_000_000,
{
}

/// A change to an epoch that the node has reached is refused, and so is one while another
/// transition is under way; neither changes anything. A change that is granted is under way.
pub proof fn law_which_epoch_changes_are_granted(
    m: &mut StateTransitionManager,
    target: u64,
    source: &str,
    now: u128,
    r: Result<(), TransitionError>,
)
    requires
        call_ensures(
            StateTransitionManager::try_start_epoch_transition_at,
            (m, target, source, now),
            r,
        ),
    ensures
        target <= old(m).epoch ==> r is Err,
        old(m).running is Some ==> r is Err,
        r is Err ==> final(m).running == old(m).running,
        r is Ok ==> old(m).running is None && final(m).running is Some,
        final(m).epoch == old(m).epoch,
        final(m).validator == old(m).validator,
{
}

} // verus!
