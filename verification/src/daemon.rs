use vstd::prelude::*;
use vstd::pervasive::unreached;
use vstd::pervasive::VecAdditionalExecFns;

use crate::gc::is_digit_char;
use crate::RESTART_CODE;

verus! {

/// Number of slots the registry holds: one per possible capability token.
pub const SLOT_COUNT: usize = 256;

/// Handle standing for one live supervised process instance.
#[derive(Debug, Clone, Copy, PartialEq, Eq, Structural)]
pub struct AppProc {}

/// Why a start request was refused.
#[derive(Debug, Clone, Copy, PartialEq, Eq, Structural)]
pub enum ProcessDaemonError {
    /// The named application's install directory does not exist.
    NotFound,
    /// The named application already holds a live process.
    AlreadyRunning,
    /// Every slot is taken and the name would need a new one.
    RegistryFull,
}

/// What a supervised child process did.
#[derive(Debug, Clone, Copy, PartialEq, Eq, Structural)]
pub enum ProcessOutcome {
    /// The process exited with a code.
    Exited(i32),
    /// The process was ended by a signal and reported no code.
    Signaled,
    /// The process could not be spawned at all.
    SpawnFailed,
}

/// What the supervision loop does next.
#[derive(Debug, Clone, Copy, PartialEq, Eq, Structural)]
pub enum SupervisorDecision {
    /// The application asked to be relaunched: spawn it again.
    Respawn,
    /// Supervision ends and the slot is released.
    Release,
}

/// Whether an outcome is the application's own request to be relaunched.
pub open spec fn is_restart(o: ProcessOutcome) -> bool {
    o == ProcessOutcome::Exited(RESTART_CODE)
}

/// Classify a child's outcome: only the sentinel restart code spawns again;
/// a clean exit, any other code, a signal, and a spawn failure all end
/// supervision.
pub fn classify_exit(outcome: &ProcessOutcome) -> (r: SupervisorDecision)
    ensures
        r == SupervisorDecision::Respawn <==> is_restart(*outcome),
{
    match outcome {
        ProcessOutcome::Exited(code) => {
            if *code == RESTART_CODE {
                SupervisorDecision::Respawn
            } else {
                SupervisorDecision::Release
            }
        },
        ProcessOutcome::Signaled => SupervisorDecision::Release,
        ProcessOutcome::SpawnFailed => SupervisorDecision::Release,
    }
}

/// How many times a supervision loop respawns before it releases the slot:
/// the number of leading restart outcomes.
pub open spec fn respawns_before_release(outcomes: Seq<ProcessOutcome>) -> nat
    decreases outcomes.len(),
{
    if outcomes.len() == 0 {
        0
    } else if is_restart(outcomes[0]) {
        1 + respawns_before_release(outcomes.skip(1))
    } else {
        0
    }
}

/// Whether supervision is still running after the first `t` outcomes: all of
/// them asked for a relaunch.
pub open spec fn still_supervising(outcomes: Seq<ProcessOutcome>, t: int) -> bool {
    forall|j: int| 0 <= j < t ==> is_restart(outcomes[j])
}

/// A process that asks to be relaunched exactly `k` times and then ends in
/// any other way is respawned exactly `k` times, and its slot is released
/// after the final outcome and not before.
pub proof fn lemma_sentinel_respawns(outcomes: Seq<ProcessOutcome>, k: nat)
    requires
        outcomes.len() == k + 1,
        forall|j: int| 0 <= j < k ==> is_restart(outcomes[j]),
        !is_restart(outcomes[k as int]),
    ensures
        respawns_before_release(outcomes) == k,
        forall|t: int| 0 <= t <= k ==> #[trigger] still_supervising(outcomes, t),
        !still_supervising(outcomes, k + 1 as int),
    decreases k,
{
    if k == 0 {
        assert(respawns_before_release(outcomes) == 0);
    } else {
        lemma_sentinel_respawns(outcomes.skip(1), (k - 1) as nat);
        assert(is_restart(outcomes[0]));
    }
}

/// The respawn count equals the position of the first outcome that is no
/// restart request.
proof fn lemma_respawns_at_index(outcomes: Seq<ProcessOutcome>, i: int)
    requires
        0 <= i < outcomes.len(),
        forall|j: int| 0 <= j < i ==> is_restart(outcomes[j]),
        !is_restart(outcomes[i]),
    ensures
        respawns_before_release(outcomes) == i,
    decreases i,
{
    if i > 0 {
        lemma_respawns_at_index(outcomes.skip(1), i - 1);
    }
}

/// A slot table of `Option` names: well formed when it is full sized and no
/// name occupies two slots.
pub open spec fn wf_names(names: Seq<Option<Seq<char>>>) -> bool {
    &&& names.len() == SLOT_COUNT
    &&& (forall|i: int, j: int|
        0 <= i < j < names.len() && names[i] is Some ==> names[i] != names[j])
}

/// Whether some slot holds this name.
pub open spec fn occupied_by(names: Seq<Option<Seq<char>>>, name: Seq<char>) -> bool {
    exists|i: int| 0 <= i < names.len() && names[i] == Some(name)
}

/// Whether every slot is taken.
pub open spec fn slots_full(names: Seq<Option<Seq<char>>>) -> bool {
    forall|i: int| 0 <= i < names.len() ==> names[i] is Some
}

/// Whether a successful start may claim slot `i` for `name`: the name is not
/// yet running, and `i` is the lowest free slot.
pub open spec fn start_ok(names: Seq<Option<Seq<char>>>, name: Seq<char>, i: int) -> bool {
    &&& !occupied_by(names, name)
    &&& 0 <= i < names.len()
    &&& names[i] is None
    &&& (forall|j: int| 0 <= j < i ==> names[j] is Some)
}

/// Two concurrent starts of one name serialize on the registry lock, and the
/// loser observes the winner: after one start succeeds, a second start of
/// the same name finds it running and is refused.
pub proof fn lemma_start_twice(names: Seq<Option<Seq<char>>>, name: Seq<char>, i: int)
    requires
        wf_names(names),
        start_ok(names, name, i),
    ensures
        wf_names(names.update(i, Some(name))),
        occupied_by(names.update(i, Some(name)), name),
{
    let updated = names.update(i, Some(name));
    assert(updated[i] == Some(name));
    assert forall|a: int, b: int|
        0 <= a < b < updated.len() && updated[a] is Some implies updated[a] != updated[b] by {
        if a != i && b != i {
            assert(updated[a] == names[a] && updated[b] == names[b]);
        } else if a == i {
            if updated[b] == Some(name) {
                assert(names[b] == Some(name));
                assert(occupied_by(names, name));
            }
        } else {
            if updated[a] == Some(name) {
                assert(names[a] == Some(name));
                assert(occupied_by(names, name));
            }
        }
    }
}

/// A full registry refuses a new name, and one process exit frees exactly
/// one slot: after slot `i` is cleared, a start of a fresh name succeeds and
/// takes slot `i` itself.
pub proof fn lemma_full_registry(names: Seq<Option<Seq<char>>>, name: Seq<char>, i: int)
    requires
        wf_names(names),
        slots_full(names),
        !occupied_by(names, name),
        0 <= i < names.len(),
    ensures
        wf_names(names.update(i, None)),
        start_ok(names.update(i, None), name, i),
{
    let updated = names.update(i, None);
    if occupied_by(updated, name) {
        let j = choose|j: int| 0 <= j < updated.len() && updated[j] == Some(name);
        assert(names[j] == Some(name));
        assert(occupied_by(names, name));
    }
    assert(forall|j: int| 0 <= j < i ==> updated[j] == names[j] && updated[j] is Some);
}

/// Value of a digit string, most significant first.
pub open spec fn digits_value(s: Seq<char>) -> int
    decreases s.len(),
{
    if s.len() == 0 {
        0
    } else {
        digits_value(s.drop_last()) * 10 + (s.last() as u32 - 48)
    }
}

/// Whether every character is a decimal digit.
pub open spec fn all_digit_chars(s: Seq<char>) -> bool {
    forall|i: int| 0 <= i < s.len() ==> is_digit_char(s[i])
}

/// The digits of a token: everything after one optional leading plus sign.
pub open spec fn token_digits(s: Seq<char>) -> Seq<char> {
    if s.len() > 0 && s[0] == '+' {
        s.skip(1)
    } else {
        s
    }
}

/// The slot index a capability token names: the token, less an optional
/// leading plus sign, must be one or more decimal digits whose value fits
/// the slot range.
pub open spec fn parse_token(s: Seq<char>) -> Option<u8> {
    let d = token_digits(s);
    if d.len() > 0 && all_digit_chars(d) && digits_value(d) <= 255 {
        Some(digits_value(d) as u8)
    } else {
        None
    }
}

/// A digit string's value never shrinks as it grows to the right.
proof fn lemma_digits_value_grows(s: Seq<char>, i: int)
    requires
        all_digit_chars(s),
        0 <= i <= s.len(),
    ensures
        0 <= digits_value(s.take(i)),
        digits_value(s.take(i)) <= digits_value(s),
    decreases s.len(),
{
    if i == s.len() {
        assert(s.take(i) =~= s);
        lemma_digits_value_nonneg(s);
    } else {
        assert(s.take(i) =~= s.drop_last().take(i));
        assert(all_digit_chars(s.drop_last()));
        lemma_digits_value_grows(s.drop_last(), i);
        lemma_digits_value_nonneg(s.drop_last());
        assert(digits_value(s) == digits_value(s.drop_last()) * 10 + (s.last() as u32 - 48));
        assert(48 <= s.last() as u32 <= 57);
    }
}

/// A digit string's value is never negative.
proof fn lemma_digits_value_nonneg(s: Seq<char>)
    requires
        all_digit_chars(s),
    ensures
        0 <= digits_value(s),
    decreases s.len(),
{
    if s.len() > 0 {
        assert(all_digit_chars(s.drop_last()));
        lemma_digits_value_nonneg(s.drop_last());
        assert(48 <= s.last() as u32 <= 57);
    }
}


/// Parse a capability token: an optional leading plus sign, then decimal
/// digits whose value names a slot.
pub fn parse_claim_token(token: &str) -> (r: Option<u8>)
    ensures
        r == parse_token(token@),
{
    let ghost s = token@;
    let n = token.unicode_len();
    let offset: usize = if n > 0 && token.get_char(0) == '+' {
        1
    } else {
        0
    };
    let ghost d = token_digits(s);
    proof {
        assert(d =~= s.skip(offset as int));
    }
    if offset == n {
        proof {
            assert(d.len() == 0);
        }
        return None;
    }
    let mut v: u32 = 0;
    let mut i = offset;
    while i < n
        invariant
            s == token@,
            d == token_digits(s),
            offset <= i <= n,
            n == s.len(),
            d == s.skip(offset as int),
            offset < n,
            forall|j: int| 0 <= j < i - offset ==> is_digit_char(d[j]),
            v == digits_value(d.take(i - offset)),
            v <= 255,
        decreases n - i,
    {
        let u = token.get_char(i) as u32;
        if !(48 <= u && u <= 57) {
            proof {
                assert(d[i - offset] == s[i as int]);
                assert(!is_digit_char(d[i - offset]));
            }
            return None;
        }
        let v2 = v * 10 + (u - 48);
        proof {
            assert(d.take(i - offset + 1).drop_last() =~= d.take(i - offset));
            assert(d.take(i - offset + 1).last() == d[i - offset]);
            assert(d[i - offset] == s[i as int]);
            assert(digits_value(d.take(i - offset + 1)) == v2);
        }
        if v2 > 255 {
            proof {
                if all_digit_chars(d) && digits_value(d) <= 255 {
                    lemma_digits_value_grows(d, i - offset + 1);
                    assert(false);
                }
            }
            return None;
        }
        v = v2;
        i = i + 1;
    }
    proof {
        assert(d.take(d.len() as int) =~= d);
        assert(all_digit_chars(d));
        assert(digits_value(d) == v);
    }
    Some(v as u8)
}


/// The character that writes one decimal digit.
pub open spec fn digit_char(d: u8) -> char {
    if d == 0 { '0' } else if d == 1 { '1' } else if d == 2 { '2' } else if d == 3 { '3' }
    else if d == 4 { '4' } else if d == 5 { '5' } else if d == 6 { '6' } else if d == 7 { '7' }
    else if d == 8 { '8' } else { '9' }
}

/// One decimal digit as text.
fn digit_str(d: u8) -> (r: &'static str)
    requires
        d < 10,
    ensures
        r@ =~= seq![digit_char(d)],
{
    proof {
        reveal_strlit("0");
        reveal_strlit("1");
        reveal_strlit("2");
        reveal_strlit("3");
        reveal_strlit("4");
        reveal_strlit("5");
        reveal_strlit("6");
        reveal_strlit("7");
        reveal_strlit("8");
        reveal_strlit("9");
    }
    match d {
        0 => "0",
        1 => "1",
        2 => "2",
        3 => "3",
        4 => "4",
        5 => "5",
        6 => "6",
        7 => "7",
        8 => "8",
        _ => "9",
    }
}

/// The capability token that names a slot: the index written in decimal.
/// Issuing and parsing round-trip, so a handed-out token resolves to its
/// own slot for exactly as long as that slot's process lives.
pub fn slot_token(index: u8) -> (r: String)
    ensures
        parse_token(r@) == Some(index),
{
    let hundreds = index / 100;
    let tens = (index / 10) % 10;
    let units = index % 10;
    let mut token = String::new();
    if hundreds > 0 {
        token.append(digit_str(hundreds));
    }
    if hundreds > 0 || tens > 0 {
        token.append(digit_str(tens));
    }
    token.append(digit_str(units));
    proof {
        reveal_with_fuel(digits_value, 4);
        assert(48 <= digit_char(units) as u32 <= 57 && digit_char(units) as u32 == 48 + units);
        assert(48 <= digit_char(tens) as u32 <= 57 && digit_char(tens) as u32 == 48 + tens);
        assert(48 <= digit_char(hundreds) as u32 <= 57 && digit_char(hundreds) as u32 == 48
            + hundreds);
        if hundreds > 0 {
            assert(token@ =~= seq![digit_char(hundreds), digit_char(tens), digit_char(units)]);
            assert(token_digits(token@) == token@);
            assert(token@.drop_last() =~= seq![digit_char(hundreds), digit_char(tens)]);
            assert(token@.drop_last().drop_last() =~= seq![digit_char(hundreds)]);
            assert(digits_value(token@) == hundreds * 100 + tens * 10 + units);
        } else if tens > 0 {
            assert(token@ =~= seq![digit_char(tens), digit_char(units)]);
            assert(token_digits(token@) == token@);
            assert(token@.drop_last() =~= seq![digit_char(tens)]);
            assert(digits_value(token@) == tens * 10 + units);
        } else {
            assert(token@ =~= seq![digit_char(units)]);
            assert(token_digits(token@) == token@);
            assert(digits_value(token@) == units);
        }
        assert(index == hundreds * 100 + tens * 10 + units);
    }
    token
}

/// Whether a token resolves against a slot table: it parses, and the slot it
/// names holds a live process.
pub open spec fn claim_resolves(procs: Seq<Option<AppProc>>, token: Seq<char>) -> bool {
    match parse_token(token) {
        Some(i) => procs[i as int] is Some,
        None => false,
    }
}

/// A capability token resolves exactly while its slot holds a live process;
/// the moment the supervisor clears the slot, the same token stops
/// resolving.
pub proof fn lemma_claim_after_exit(procs: Seq<Option<AppProc>>, token: Seq<char>, i: u8)
    requires
        parse_token(token) == Some(i),
        procs.len() == SLOT_COUNT,
    ensures
        claim_resolves(procs, token) <==> procs[i as int] is Some,
        !claim_resolves(procs.update(i as int, None::<AppProc>), token),
{
}

/// The slot table: a fixed array of process slots with the names that own
/// them.  The registry lock around it lives with the caller and is held only
/// for these O(1) bookkeeping steps, never across a spawn or a wait.
pub struct ProcessDaemonIntl {
    reg: Vec<Option<AppProc>>,
    name_reg: Vec<Option<String>>,
}

impl ProcessDaemonIntl {
    /// The name table, one optional owner per slot.
    pub closed spec fn names(&self) -> Seq<Option<Seq<char>>> {
        self.name_reg.deep_view()
    }

    /// The process table, one optional live handle per slot.
    pub closed spec fn procs(&self) -> Seq<Option<AppProc>> {
        self.reg@
    }

    /// Both tables are full sized, a slot holds a process exactly while a
    /// name owns it, and no name owns two slots.
    pub open spec fn wf(&self) -> bool {
        &&& wf_names(self.names())
        &&& self.procs().len() == SLOT_COUNT
        &&& (forall|i: int|
            0 <= i < SLOT_COUNT ==> (self.procs()[i] is Some <==> self.names()[i] is Some))
    }

    /// A fresh registry: every slot empty.
    pub fn new() -> (r: ProcessDaemonIntl)
        ensures
            r.wf(),
            forall|i: int| 0 <= i < SLOT_COUNT ==> r.names()[i] is None && r.procs()[i] is None,
    {
        let mut reg: Vec<Option<AppProc>> = Vec::new();
        let mut name_reg: Vec<Option<String>> = Vec::new();
        let mut i: usize = 0;
        while i < SLOT_COUNT
            invariant
                i == reg@.len(),
                i == name_reg@.len(),
                i <= SLOT_COUNT,
                forall|j: int| 0 <= j < i ==> reg@[j] is None,
                forall|j: int| 0 <= j < i ==> name_reg@[j] is None,
            decreases SLOT_COUNT - i,
        {
            reg.push(None);
            name_reg.push(None);
            i = i + 1;
        }
        let r = ProcessDaemonIntl { reg, name_reg };
        proof {
            assert(forall|j: int| 0 <= j < SLOT_COUNT ==> r.names()[j] is None);
        }
        r
    }

    /// The index a name resolves to: the slot it already owns, else the
    /// lowest free slot, else the registry is full.  Deterministic only for
    /// the lifetime of the host process; nothing is promised across its
    /// restarts.
    pub fn get_index(&self, name: &String) -> (r: Result<u8, ProcessDaemonError>)
        requires
            self.wf(),
        ensures
            match r {
                Ok(i) => (i as int) < SLOT_COUNT && if occupied_by(self.names(), name@) {
                    self.names()[i as int] == Some(name@)
                } else {
                    start_ok(self.names(), name@, i as int)
                },
                Err(e) => {
                    &&& e == ProcessDaemonError::RegistryFull
                    &&& !occupied_by(self.names(), name@)
                    &&& slots_full(self.names())
                },
            },
    {
        let mut free: Option<u8> = None;
        let mut i: usize = 0;
        while i < SLOT_COUNT
            invariant
                self.wf(),
                0 <= i <= SLOT_COUNT,
                forall|j: int| 0 <= j < i ==> self.names()[j] != Some(name@),
                match free {
                    Some(f) => (f as int) < i && self.names()[f as int] is None && (forall|j: int|
                        0 <= j < f ==> self.names()[j] is Some),
                    None => forall|j: int| 0 <= j < i ==> self.names()[j] is Some,
                },
            decreases SLOT_COUNT - i,
        {
            match &self.name_reg[i] {
                Some(n) => {
                    if n.eq(name) {
                        proof {
                            assert(self.names()[i as int] == Some(name@));
                        }
                        return Ok(i as u8);
                    }
                },
                None => {
                    if free.is_none() {
                        free = Some(i as u8);
                    }
                    proof {
                        assert(self.names()[i as int] is None);
                    }
                },
            }
            i = i + 1;
        }
        proof {
            if occupied_by(self.names(), name@) {
                let j = choose|j: int|
                    0 <= j < self.names().len() && self.names()[j] == Some(name@);
                assert(false);
            }
        }
        match free {
            Some(f) => Ok(f),
            None => Err(ProcessDaemonError::RegistryFull),
        }
    }

    /// Check-and-reserve a slot for a named application.  `app_exists` is
    /// the caller's answer to whether the application's install directory
    /// exists; everything else is decided here, under the caller's lock.
    pub fn start(&mut self, name: &String, app_exists: bool) -> (r: Result<u8, ProcessDaemonError>)
        requires
            old(self).wf(),
        ensures
            final(self).wf(),
            match r {
                Ok(i) => {
                    &&& app_exists
                    &&& start_ok(old(self).names(), name@, i as int)
                    &&& final(self).names() == old(self).names().update(i as int, Some(name@))
                    &&& final(self).procs() == old(self).procs().update(
                        i as int,
                        Some(AppProc {  }),
                    )
                },
                Err(e) => {
                    &&& *final(self) == *old(self)
                    &&& match e {
                        ProcessDaemonError::NotFound => !app_exists,
                        ProcessDaemonError::AlreadyRunning => app_exists && occupied_by(
                            old(self).names(),
                            name@,
                        ),
                        ProcessDaemonError::RegistryFull => {
                            &&& app_exists
                            &&& !occupied_by(old(self).names(), name@)
                            &&& slots_full(old(self).names())
                        },
                    }
                },
            },
    {
        if !app_exists {
            return Err(ProcessDaemonError::NotFound);
        }
        let index = match self.get_index(name) {
            Err(e) => {
                return Err(e);
            },
            Ok(i) => i,
        };
        if self.reg[index as usize].is_some() {
            proof {
                if !occupied_by(self.names(), name@) {
                    assert(self.names()[index as int] is None);
                    assert(false);
                }
            }
            return Err(ProcessDaemonError::AlreadyRunning);
        }
        proof {
            if occupied_by(self.names(), name@) {
                assert(self.names()[index as int] == Some(name@));
                assert(false);
            }
            lemma_start_twice(self.names(), name@, index as int);
        }
        self.reg.set(index as usize, Some(AppProc {  }));
        self.name_reg.set(index as usize, Some(name.clone()));
        proof {
            assert(self.names() =~= old(self).names().update(index as int, Some(name@)));
        }
        Ok(index)
    }

    /// Resolve a capability token to whatever occupies its slot right now.
    /// Callers treat an empty slot exactly like a malformed token: the claim
    /// is re-checked at the point of use, never cached.
    pub fn claim(&self, token: &String) -> (r: Option<AppProc>)
        requires
            self.wf(),
        ensures
            r == match parse_token(token@) {
                Some(i) => self.procs()[i as int],
                None => None::<AppProc>,
            },
            r is Some <==> claim_resolves(self.procs(), token@),
    {
        match parse_claim_token(token.as_str()) {
            None => None,
            Some(i) => self.reg[i as usize],
        }
    }

    /// Release a slot after its process ended.  This is the one transition
    /// back to empty, and the supervision task that owns the slot is its one
    /// caller, so no two writers ever race on it.
    pub fn clear_slot(&mut self, index: u8)
        requires
            old(self).wf(),
        ensures
            final(self).wf(),
            final(self).names() == old(self).names().update(index as int, None::<Seq<char>>),
            final(self).procs() == old(self).procs().update(index as int, None::<AppProc>),
    {
        self.reg.set(index as usize, None);
        self.name_reg.set(index as usize, None);
        proof {
            assert(self.names() =~= old(self).names().update(index as int, None::<Seq<char>>));
            assert forall|a: int, b: int|
                0 <= a < b < self.names().len() && self.names()[a] is Some implies self.names()[a]
                != self.names()[b] by {
                if a != index as int && b != index as int {
                    assert(self.names()[a] == old(self).names()[a]);
                    assert(self.names()[b] == old(self).names()[b]);
                }
            }
        }
    }

    /// Drive one slot's supervision to its end against a recorded run of
    /// child outcomes: every restart request respawns, the first outcome of
    /// any other kind ends supervision, and only then is the slot cleared.
    /// Returns how many times the child was respawned.
    pub fn run_supervision(&mut self, index: u8, outcomes: &Vec<ProcessOutcome>) -> (r: usize)
        requires
            old(self).wf(),
            exists|t: int| 0 <= t < outcomes@.len() && !is_restart(outcomes@[t]),
        ensures
            final(self).wf(),
            r == respawns_before_release(outcomes@),
            final(self).names() == old(self).names().update(index as int, None::<Seq<char>>),
            final(self).procs() == old(self).procs().update(index as int, None::<AppProc>),
    {
        let mut i: usize = 0;
        while i < outcomes.len()
            invariant
                *self == *old(self),
                old(self).wf(),
                exists|t: int| 0 <= t < outcomes@.len() && !is_restart(outcomes@[t]),
                0 <= i <= outcomes@.len(),
                forall|j: int| 0 <= j < i ==> is_restart(outcomes@[j]),
            decreases outcomes@.len() - i,
        {
            match classify_exit(&outcomes[i]) {
                SupervisorDecision::Release => {
                    proof {
                        lemma_respawns_at_index(outcomes@, i as int);
                    }
                    self.clear_slot(index);
                    return i;
                },
                SupervisorDecision::Respawn => {
                    i = i + 1;
                },
            }
        }
        proof {
            let t = choose|t: int| 0 <= t < outcomes@.len() && !is_restart(outcomes@[t]);
            assert(false);
        }
        unreached()
    }
}

} // verus!
