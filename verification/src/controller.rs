//! The transaction-scoped command executor.
//!
//! A [`Controller`] owns at most one open transaction at a time. While a
//! transaction is open it works on a snapshot of the rental table;
//! committing installs that snapshot as the new committed table, rolling
//! back discards it. Every operation is specified against a functional
//! model of the executor's state, so each contract pins down both the
//! returned value and the whole state after the call.
//!
//! One executor runs its commands strictly one after another. Where
//! several executors share one store, serializing their check-then-act
//! sequences is the store's affair: a program driving a shared store
//! locks, for rent and try-terminate, every rental row of the user or
//! the instrument before counting and deciding, and holds that lock to
//! the end of the transaction.

use vstd::prelude::*;

use crate::numeric::int_value;
use crate::numeric::is_i32_text;
use crate::numeric::is_i64_text;
use crate::numeric::parse_i32;
use crate::numeric::parse_i64;
use crate::store::Instrument;
use crate::store::InstrumentType;
use crate::store::InstrumentTypeV;
use crate::store::InstrumentV;
use crate::store::Renting;
use crate::store::count_instrument_rentals;
use crate::store::count_user_rentals;
use crate::store::find_to_terminate;
use crate::store::id_count;
use crate::store::instrument_line;
use crate::store::is_prefix_of;
use crate::store::item_active_count;
use crate::store::lower;
use crate::store::matching_active;
use crate::store::rentals_wf;
use crate::store::snapshot;
use crate::store::terminate_all;
use crate::store::terminate_rid;
use crate::store::type_matches;
use crate::store::user_active_count;

verus! {

/// The commands the executor accepts.
#[derive(Debug, PartialEq, Eq)]
pub enum Command {
    /// Begin a new transaction, discarding an already open one.
    Begin,
    /// Commit the current transaction.
    Commit,
    /// List available instruments, optionally of one category.
    List(Option<String>),
    /// Rent an instrument for a user, both given as decimal text.
    Rent(String, String),
    /// Roll back the current transaction.
    Rollback,
    /// Terminate the rental with the given identity.
    Terminate(String),
    /// Terminate the one active rental of a user and instrument pair.
    TryTerminate(String, String),
}

/// The mathematical image of a [`Command`].
pub enum CommandV {
    Begin,
    Commit,
    List(Option<Seq<char>>),
    Rent(Seq<char>, Seq<char>),
    Rollback,
    Terminate(Seq<char>),
    TryTerminate(Seq<char>, Seq<char>),
}

impl View for Command {
    type V = CommandV;

    open spec fn view(&self) -> CommandV {
        match self {
            Command::Begin => CommandV::Begin,
            Command::Commit => CommandV::Commit,
            Command::List(o) => CommandV::List(
                match o {
                    Some(f) => Some(f@),
                    None => None,
                },
            ),
            Command::Rent(u, i) => CommandV::Rent(u@, i@),
            Command::Rollback => CommandV::Rollback,
            Command::Terminate(id) => CommandV::Terminate(id@),
            Command::TryTerminate(u, i) => CommandV::TryTerminate(u@, i@),
        }
    }
}

/// What a successfully executed command returns.
#[derive(Debug, PartialEq, Eq)]
pub enum ControlResult {
    /// A transaction was begun.
    Begin,
    /// The transaction was committed.
    Commit,
    /// One rendered line per instrument with availability left.
    List(Vec<String>),
    /// A rental was admitted; carries the number of rows inserted.
    Rent(u64),
    /// The transaction was rolled back.
    Rollback,
    /// Rows affected by a termination by identity.
    Terminate(u64),
    /// Rows affected by a termination resolved from a user and item pair.
    TryTerminate(u64),
}

/// The mathematical image of a [`ControlResult`].
pub enum CResultV {
    Begin,
    Commit,
    List(Seq<Seq<char>>),
    Rent(u64),
    Rollback,
    Terminate(u64),
    TryTerminate(u64),
}

impl View for ControlResult {
    type V = CResultV;

    open spec fn view(&self) -> CResultV {
        match self {
            ControlResult::Begin => CResultV::Begin,
            ControlResult::Commit => CResultV::Commit,
            ControlResult::List(v) => CResultV::List(v@.map_values(|s: String| s@)),
            ControlResult::Rent(n) => CResultV::Rent(*n),
            ControlResult::Rollback => CResultV::Rollback,
            ControlResult::Terminate(n) => CResultV::Terminate(*n),
            ControlResult::TryTerminate(n) => CResultV::TryTerminate(*n),
        }
    }
}

/// Why a command failed.
#[derive(Debug, PartialEq, Eq)]
pub enum ControlError {
    /// The operation needs an open transaction and none is open.
    NoActiveTransaction,
    /// A user, instrument or rental identifier was not a decimal `i32`.
    InvalidIdentifier,
    /// The configured rental maximum was not a decimal `i64`.
    InvalidConfiguration,
    /// The user already has as many active rentals as the rule allows.
    RentalCapExceeded,
    /// A lookup matched nothing.
    NotFound,
    /// Several active rentals match the user and instrument pair; they are
    /// carried here so a caller can pick one and terminate it by identity.
    AmbiguousTermination(Vec<Renting>),
    /// The underlying store failed.
    StoreError,
}

/// The mathematical image of a [`ControlError`].
pub enum CErrorV {
    NoActiveTransaction,
    InvalidIdentifier,
    InvalidConfiguration,
    RentalCapExceeded,
    NotFound,
    AmbiguousTermination(Seq<Renting>),
    StoreError,
}

impl View for ControlError {
    type V = CErrorV;

    open spec fn view(&self) -> CErrorV {
        match self {
            ControlError::NoActiveTransaction => CErrorV::NoActiveTransaction,
            ControlError::InvalidIdentifier => CErrorV::InvalidIdentifier,
            ControlError::InvalidConfiguration => CErrorV::InvalidConfiguration,
            ControlError::RentalCapExceeded => CErrorV::RentalCapExceeded,
            ControlError::NotFound => CErrorV::NotFound,
            ControlError::AmbiguousTermination(v) => CErrorV::AmbiguousTermination(v@),
            ControlError::StoreError => CErrorV::StoreError,
        }
    }
}

/// The image of what an operation hands back.
pub open spec fn res_view(r: Result<ControlResult, ControlError>) -> Result<CResultV, CErrorV> {
    match r {
        Ok(x) => Ok(x@),
        Err(e) => Err(e@),
    }
}

/// The executor's whole state, as mathematics.
pub struct StateV {
    /// The catalogue.
    pub instruments: Seq<InstrumentV>,
    /// The categories.
    pub instrument_types: Seq<InstrumentTypeV>,
    /// The committed rental table.
    pub rentings: Seq<Renting>,
    /// The open transaction's working rental table, if one is open.
    pub tx: Option<Seq<Renting>>,
    /// The raw configured rentals-per-user maximum.
    pub max_rentals_value: Seq<char>,
    /// The identity the next inserted rental will receive.
    pub next_rent_id: i32,
    /// The current timestamp.
    pub now: i64,
}

/// Rental identities are unique in the committed table and in the working
/// table, and `next_rent_id` lies above every identity in use.
pub open spec fn wf(s: StateV) -> bool {
    &&& rentals_wf(s.rentings, s.next_rent_id)
    &&& (s.tx matches Some(w) ==> rentals_wf(w, s.next_rent_id))
}

/// The command executor.
pub struct Controller {
    instruments: Vec<Instrument>,
    instrument_types: Vec<InstrumentType>,
    rentings: Vec<Renting>,
    tx: Option<Vec<Renting>>,
    max_rentals_value: String,
    next_rent_id: i32,
    now: i64,
}

impl View for Controller {
    type V = StateV;

    closed spec fn view(&self) -> StateV {
        StateV {
            instruments: self.instruments@.map_values(|x: Instrument| x@),
            instrument_types: self.instrument_types@.map_values(|x: InstrumentType| x@),
            rentings: self.rentings@,
            tx: match &self.tx {
                Some(w) => Some(w@),
                None => None,
            },
            max_rentals_value: self.max_rentals_value@,
            next_rent_id: self.next_rent_id,
            now: self.now,
        }
    }
}

/// Begin: an open transaction is discarded, then a fresh one starts on a
/// snapshot of the committed table. It always acknowledges.
pub open spec fn begin_model(s: StateV) -> (StateV, Result<CResultV, CErrorV>) {
    (StateV { tx: Some(s.rentings), ..s }, Ok(CResultV::Begin))
}

/// Commit: installs the working table as the committed one.
pub open spec fn commit_model(s: StateV) -> (StateV, Result<CResultV, CErrorV>) {
    match s.tx {
        None => (s, Err(CErrorV::NoActiveTransaction)),
        Some(w) => (StateV { rentings: w, tx: None, ..s }, Ok(CResultV::Commit)),
    }
}

/// Rollback: discards the working table.
pub open spec fn rollback_model(s: StateV) -> (StateV, Result<CResultV, CErrorV>) {
    match s.tx {
        None => (s, Err(CErrorV::NoActiveTransaction)),
        Some(_) => (StateV { tx: None, ..s }, Ok(CResultV::Rollback)),
    }
}

/// Rent: parse the identifiers, require an open transaction, read the
/// configured cap, and admit a new active rental only while the user's
/// active count is below the cap.
pub open spec fn rent_model(s: StateV, user: Seq<char>, inst: Seq<char>) -> (
    StateV,
    Result<CResultV, CErrorV>,
) {
    if !(is_i32_text(user) && is_i32_text(inst)) {
        (s, Err(CErrorV::InvalidIdentifier))
    } else {
        let u = int_value(user) as i32;
        let i = int_value(inst) as i32;
        match s.tx {
            None => (s, Err(CErrorV::NoActiveTransaction)),
            Some(w) => {
                if !is_i64_text(s.max_rentals_value) {
                    (s, Err(CErrorV::InvalidConfiguration))
                } else if user_active_count(w, u) >= int_value(s.max_rentals_value) {
                    (s, Err(CErrorV::RentalCapExceeded))
                } else if s.next_rent_id == i32::MAX {
                    (s, Err(CErrorV::StoreError))
                } else {
                    let row = Renting {
                        rent_id: s.next_rent_id,
                        student_id: u,
                        instrument_id: i,
                        start_date: s.now,
                        end_date: None,
                    };
                    (
                        StateV {
                            tx: Some(w.push(row)),
                            next_rent_id: (s.next_rent_id + 1) as i32,
                            ..s
                        },
                        Ok(CResultV::Rent(1)),
                    )
                }
            },
        }
    }
}

/// Terminate by identity: require an open transaction, parse the
/// identifier, stamp every row of that identity as ended, and report how
/// many rows that touched. Zero is not an error here.
pub open spec fn terminate_model(s: StateV, id_text: Seq<char>) -> (
    StateV,
    Result<CResultV, CErrorV>,
) {
    match s.tx {
        None => (s, Err(CErrorV::NoActiveTransaction)),
        Some(w) => {
            if !is_i32_text(id_text) {
                (s, Err(CErrorV::InvalidIdentifier))
            } else {
                let id = int_value(id_text) as i32;
                (
                    StateV { tx: Some(terminate_all(w, id, s.now)), ..s },
                    Ok(CResultV::Terminate(id_count(w, id) as u64)),
                )
            }
        },
    }
}

/// Try-terminate: parse the identifiers, require an open transaction, and
/// resolve the active rentals of the pair: none is `NotFound`, exactly one
/// is terminated by its identity, several are handed back for manual
/// disambiguation, all left active.
pub open spec fn try_terminate_model(s: StateV, user: Seq<char>, inst: Seq<char>) -> (
    StateV,
    Result<CResultV, CErrorV>,
) {
    if !(is_i32_text(user) && is_i32_text(inst)) {
        (s, Err(CErrorV::InvalidIdentifier))
    } else {
        let u = int_value(user) as i32;
        let i = int_value(inst) as i32;
        match s.tx {
            None => (s, Err(CErrorV::NoActiveTransaction)),
            Some(w) => {
                let ms = matching_active(w, u, i);
                if ms.len() == 0 {
                    (s, Err(CErrorV::NotFound))
                } else if ms.len() == 1 {
                    (
                        StateV { tx: Some(terminate_all(w, ms[0].rent_id, s.now)), ..s },
                        Ok(CResultV::TryTerminate(id_count(w, ms[0].rent_id) as u64)),
                    )
                } else {
                    (s, Err(CErrorV::AmbiguousTermination(ms)))
                }
            },
        }
    }
}

/// The first category whose name the filter prefixes, comparing with
/// ASCII letters folded to lower case.
pub open spec fn first_match(ts: Seq<InstrumentTypeV>, f: Seq<char>) -> Option<InstrumentTypeV>
    decreases ts.len(),
{
    if ts.len() == 0 {
        None
    } else if is_prefix_of(lower(f), lower(ts[0].instrument_type)) {
        Some(ts[0])
    } else {
        first_match(ts.drop_first(), f)
    }
}

/// The catalogue restricted to one category, in order.
pub open spec fn items_of_type(items: Seq<InstrumentV>, tid: i32) -> Seq<InstrumentV>
    decreases items.len(),
{
    if items.len() == 0 {
        Seq::empty()
    } else {
        items_of_type(items.drop_last(), tid) + if items.last().instrument_type_id == tid {
            seq![items.last()]
        } else {
            Seq::empty()
        }
    }
}

/// How many units of an instrument are free to rent under working table `w`.
pub open spec fn available_of(it: InstrumentV, w: Seq<Renting>) -> int {
    it.count - item_active_count(w, it.instrument_id)
}

/// The rendered lines of the instruments that still have availability,
/// in catalogue order.
pub open spec fn render_available(items: Seq<InstrumentV>, w: Seq<Renting>) -> Seq<Seq<char>>
    decreases items.len(),
{
    if items.len() == 0 {
        Seq::empty()
    } else {
        render_available(items.drop_last(), w) + if available_of(items.last(), w) > 0 {
            seq![instrument_line(items.last(), available_of(items.last(), w))]
        } else {
            Seq::empty()
        }
    }
}

/// List: require an open transaction; resolve an optional category filter
/// (no matching category is `NotFound`); keep the instruments with
/// availability left; an empty final list is `NotFound`.
pub open spec fn list_model(s: StateV, filter: Option<Seq<char>>) -> (
    StateV,
    Result<CResultV, CErrorV>,
) {
    match s.tx {
        None => (s, Err(CErrorV::NoActiveTransaction)),
        Some(w) => match filter {
            None => {
                let lines = render_available(s.instruments, w);
                if lines.len() == 0 {
                    (s, Err(CErrorV::NotFound))
                } else {
                    (s, Ok(CResultV::List(lines)))
                }
            },
            Some(f) => match first_match(s.instrument_types, f) {
                None => (s, Err(CErrorV::NotFound)),
                Some(t) => {
                    let lines = render_available(
                        items_of_type(s.instruments, t.instrument_type_id),
                        w,
                    );
                    if lines.len() == 0 {
                        (s, Err(CErrorV::NotFound))
                    } else {
                        (s, Ok(CResultV::List(lines)))
                    }
                },
            },
        },
    }
}

/// The image of an optional textual filter.
pub open spec fn opt_view(o: Option<String>) -> Option<Seq<char>> {
    match o {
        Some(f) => Some(f@),
        None => None,
    }
}

/// The part of the catalogue a resolved filter selects.
pub open spec fn select_items(items: Seq<InstrumentV>, filt: Option<i32>) -> Seq<InstrumentV> {
    match filt {
        None => items,
        Some(t) => items_of_type(items, t),
    }
}

/// One step of the executor: each command maps to its operation.
pub open spec fn execute_model(s: StateV, c: CommandV) -> (StateV, Result<CResultV, CErrorV>) {
    match c {
        CommandV::Begin => begin_model(s),
        CommandV::Commit => commit_model(s),
        CommandV::List(o) => list_model(s, o),
        CommandV::Rent(u, i) => rent_model(s, u, i),
        CommandV::Rollback => rollback_model(s),
        CommandV::Terminate(id) => terminate_model(s, id),
        CommandV::TryTerminate(u, i) => try_terminate_model(s, u, i),
    }
}

/// Decides rental admission: the raw configured maximum must parse as a
/// decimal `i64`, and the user's active count must lie strictly below it.
pub fn check_rent_admission(max_raw: &str, active_count: usize) -> (r: Result<(), ControlError>)
    ensures
        r is Ok <==> is_i64_text(max_raw@) && (active_count as int) < int_value(max_raw@),
        !is_i64_text(max_raw@) ==> r == Err::<(), ControlError>(ControlError::InvalidConfiguration),
        is_i64_text(max_raw@) && (active_count as int) >= int_value(max_raw@) ==> r == Err::<
            (),
            ControlError,
        >(ControlError::RentalCapExceeded),
{
    let max = match parse_i64(max_raw) {
        Some(m) => m,
        None => {
            return Err(ControlError::InvalidConfiguration);
        },
    };
    if max < 0 || active_count as u64 >= max as u64 {
        Err(ControlError::RentalCapExceeded)
    } else {
        Ok(())
    }
}

/// Resolves a termination request from its matching active rentals: none
/// is `NotFound`, exactly one yields its identity, several are handed
/// back for manual disambiguation.
pub fn resolve_termination(found: Vec<Renting>) -> (r: Result<i32, ControlError>)
    ensures
        found@.len() == 0 ==> r == Err::<i32, ControlError>(ControlError::NotFound),
        found@.len() == 1 ==> r == Ok::<i32, ControlError>(found@[0].rent_id),
        found@.len() >= 2 ==> r == Err::<i32, ControlError>(
            ControlError::AmbiguousTermination(found),
        ),
{
    if found.len() == 0 {
        Err(ControlError::NotFound)
    } else if found.len() == 1 {
        Ok(found[0].get_id())
    } else {
        Err(ControlError::AmbiguousTermination(found))
    }
}

/// Renders one catalogue line for an instrument of which `rented` units
/// are out, or nothing when no unit is left to rent.
pub fn render_item(it: &Instrument, rented: usize) -> (r: Option<String>)
    ensures
        ({
            let avail = it@.count - rented as int;
            match r {
                Some(line) => avail > 0 && line@ == instrument_line(it@, avail),
                None => avail <= 0,
            }
        }),
{
    if it.count > 0 && rented < it.count as usize {
        let avail: i64 = it.count as i64 - rented as i64;
        Some(it.to_string(avail))
    } else {
        None
    }
}

/// Parses a user and an instrument identifier together; either failing is
/// an invalid identifier.
pub fn u_i_parse(u: &str, i: &str) -> (r: Result<(i32, i32), ControlError>)
    ensures
        r is Ok <==> is_i32_text(u@) && is_i32_text(i@),
        r matches Ok(p) ==> p.0 as int == int_value(u@) && p.1 as int == int_value(i@),
        r matches Err(e) ==> e == ControlError::InvalidIdentifier,
{
    let uv = match parse_i32(u) {
        Some(v) => v,
        None => {
            return Err(ControlError::InvalidIdentifier);
        },
    };
    let iv = match parse_i32(i) {
        Some(v) => v,
        None => {
            return Err(ControlError::InvalidIdentifier);
        },
    };
    Ok((uv, iv))
}

impl Controller {
    /// Sets up an executor over the given store contents, with no open
    /// transaction. The rental table must respect the store's primary-key
    /// discipline.
    pub fn new(
        instruments: Vec<Instrument>,
        instrument_types: Vec<InstrumentType>,
        rentings: Vec<Renting>,
        max_rentals_value: String,
        next_rent_id: i32,
        now: i64,
    ) -> (c: Controller)
        requires
            rentals_wf(rentings@, next_rent_id),
        ensures
            c@.instruments == instruments@.map_values(|x: Instrument| x@),
            c@.instrument_types == instrument_types@.map_values(|x: InstrumentType| x@),
            c@.rentings == rentings@,
            c@.tx is None,
            c@.max_rentals_value == max_rentals_value@,
            c@.next_rent_id == next_rent_id,
            c@.now == now,
            wf(c@),
    {
        Controller {
            instruments,
            instrument_types,
            rentings,
            tx: None,
            max_rentals_value,
            next_rent_id,
            now,
        }
    }

    /// Moves the executor's clock; new rentals and terminations are
    /// stamped with the latest value.
    pub fn set_now(&mut self, t: i64)
        ensures
            final(self)@ == (StateV { now: t, ..old(self)@ }),
    {
        self.now = t;
    }

    /// Begins a transaction, discarding an already open one first.
    pub fn begin(&mut self) -> (r: Result<ControlResult, ControlError>)
        requires
            wf(old(self)@),
        ensures
            final(self)@ == begin_model(old(self)@).0,
            res_view(r) == begin_model(old(self)@).1,
            wf(final(self)@),
    {
        let w = snapshot(&self.rentings);
        self.tx = Some(w);
        Ok(ControlResult::Begin)
    }

    /// Commits the open transaction; without one this is
    /// `NoActiveTransaction`.
    pub fn commit(&mut self) -> (r: Result<ControlResult, ControlError>)
        requires
            wf(old(self)@),
        ensures
            final(self)@ == commit_model(old(self)@).0,
            res_view(r) == commit_model(old(self)@).1,
            wf(final(self)@),
    {
        match self.tx.take() {
            None => Err(ControlError::NoActiveTransaction),
            Some(w) => {
                self.rentings = w;
                Ok(ControlResult::Commit)
            },
        }
    }

    /// Rolls back the open transaction; without one this is
    /// `NoActiveTransaction`.
    pub fn rollback(&mut self) -> (r: Result<ControlResult, ControlError>)
        requires
            wf(old(self)@),
        ensures
            final(self)@ == rollback_model(old(self)@).0,
            res_view(r) == rollback_model(old(self)@).1,
            wf(final(self)@),
    {
        match self.tx.take() {
            None => Err(ControlError::NoActiveTransaction),
            Some(_) => Ok(ControlResult::Rollback),
        }
    }

    /// Admits a rental of instrument `inst` for user `user`, subject to
    /// the configured per-user cap.
    pub fn rent(&mut self, user: &str, inst: &str) -> (r: Result<ControlResult, ControlError>)
        requires
            wf(old(self)@),
        ensures
            final(self)@ == rent_model(old(self)@, user@, inst@).0,
            res_view(r) == rent_model(old(self)@, user@, inst@).1,
            wf(final(self)@),
    {
        let (u, i) = match u_i_parse(user, inst) {
            Ok(p) => p,
            Err(e) => {
                return Err(e);
            },
        };
        if self.tx.is_none() {
            return Err(ControlError::NoActiveTransaction);
        }
        let cnt = match &self.tx {
            Some(w) => count_user_rentals(w, u),
            None => {
                return Err(ControlError::NoActiveTransaction);
            },
        };
        match check_rent_admission(self.max_rentals_value.as_str(), cnt) {
            Ok(()) => {},
            Err(e) => {
                return Err(e);
            },
        };
        if self.next_rent_id == i32::MAX {
            return Err(ControlError::StoreError);
        }
        let row = Renting {
            rent_id: self.next_rent_id,
            student_id: u,
            instrument_id: i,
            start_date: self.now,
            end_date: None,
        };
        match &mut self.tx {
            Some(w) => w.push(row),
            None => {
                return Err(ControlError::NoActiveTransaction);
            },
        };
        self.next_rent_id = self.next_rent_id + 1;
        Ok(ControlResult::Rent(1))
    }

    /// Terminates the rental with identity `id`, stamping it with the
    /// current time; zero affected rows is reported, not an error.
    pub fn terminate(&mut self, id: &str) -> (r: Result<ControlResult, ControlError>)
        requires
            wf(old(self)@),
        ensures
            final(self)@ == terminate_model(old(self)@, id@).0,
            res_view(r) == terminate_model(old(self)@, id@).1,
            wf(final(self)@),
    {
        if self.tx.is_none() {
            return Err(ControlError::NoActiveTransaction);
        }
        let rid = match parse_i32(id) {
            Some(v) => v,
            None => {
                return Err(ControlError::InvalidIdentifier);
            },
        };
        let t = self.now;
        let n = match &mut self.tx {
            Some(w) => terminate_rid(w, rid, t),
            None => {
                return Err(ControlError::NoActiveTransaction);
            },
        };
        Ok(ControlResult::Terminate(n))
    }

    /// Resolves the active rentals of the pair and terminates when the
    /// resolution is unambiguous; several matches are handed back intact.
    pub fn try_terminate(&mut self, user: &str, inst: &str) -> (r: Result<
        ControlResult,
        ControlError,
    >)
        requires
            wf(old(self)@),
        ensures
            final(self)@ == try_terminate_model(old(self)@, user@, inst@).0,
            res_view(r) == try_terminate_model(old(self)@, user@, inst@).1,
            wf(final(self)@),
    {
        let (u, i) = match u_i_parse(user, inst) {
            Ok(p) => p,
            Err(e) => {
                return Err(e);
            },
        };
        if self.tx.is_none() {
            return Err(ControlError::NoActiveTransaction);
        }
        let found = match &self.tx {
            Some(w) => find_to_terminate(w, u, i),
            None => {
                return Err(ControlError::NoActiveTransaction);
            },
        };
        let rid = match resolve_termination(found) {
            Ok(rid) => rid,
            Err(e) => {
                return Err(e);
            },
        };
        let t = self.now;
        let n = match &mut self.tx {
            Some(w) => terminate_rid(w, rid, t),
            None => {
                return Err(ControlError::NoActiveTransaction);
            },
        };
        Ok(ControlResult::TryTerminate(n))
    }

    /// Resolves a category filter to the identity of the first category
    /// whose name it prefixes, comparing case-insensitively.
    fn find_type(&self, f: &str) -> (r: Option<i32>)
        ensures
            match first_match(self@.instrument_types, f@) {
                Some(t) => r == Some(t.instrument_type_id),
                None => r is None,
            },
    {
        let ghost tsv = self@.instrument_types;
        proof {
            assert(tsv.skip(0) =~= tsv);
        }
        let mut k: usize = 0;
        while k < self.instrument_types.len()
            invariant
                k <= self.instrument_types@.len(),
                tsv == self@.instrument_types,
                tsv.len() == self.instrument_types@.len(),
                first_match(tsv, f@) == first_match(tsv.skip(k as int), f@),
            decreases self.instrument_types@.len() - k,
        {
            proof {
                assert(tsv.skip(k as int)[0] == tsv[k as int]);
            }
            let it = &self.instrument_types[k];
            if type_matches(f, it.instrument_type.as_str()) {
                return Some(it.instrument_type_id);
            }
            proof {
                assert(tsv.skip(k as int).drop_first() =~= tsv.skip(k + 1));
            }
            k = k + 1;
        }
        proof {
            assert(tsv.skip(tsv.len() as int) =~= Seq::<InstrumentTypeV>::empty());
        }
        None
    }

    /// Lists the instruments that still have availability, optionally
    /// restricted to one category, each rendered as one line.
    pub fn list(&mut self, o: Option<String>) -> (r: Result<ControlResult, ControlError>)
        requires
            wf(old(self)@),
        ensures
            final(self)@ == list_model(old(self)@, opt_view(o)).0,
            res_view(r) == list_model(old(self)@, opt_view(o)).1,
            wf(final(self)@),
    {
        if self.tx.is_none() {
            return Err(ControlError::NoActiveTransaction);
        }
        let filt: Option<i32> = match &o {
            Some(f) => match self.find_type(f.as_str()) {
                Some(t) => Some(t),
                None => {
                    return Err(ControlError::NotFound);
                },
            },
            None => None,
        };
        let ghost sv = self@;
        let ghost wv = match sv.tx {
            Some(x) => x,
            None => Seq::empty(),
        };
        let w = match &self.tx {
            Some(w) => w,
            None => {
                return Err(ControlError::NoActiveTransaction);
            },
        };
        let mut lines: Vec<String> = Vec::new();
        let mut k: usize = 0;
        while k < self.instruments.len()
            invariant
                k <= self.instruments@.len(),
                sv == self@,
                sv.tx == Some(wv),
                w@ == wv,
                sv.instruments.len() == self.instruments@.len(),
                lines@.map_values(|s: String| s@) == render_available(
                    select_items(sv.instruments.take(k as int), filt),
                    wv,
                ),
            decreases self.instruments@.len() - k,
        {
            proof {
                assert(sv.instruments.take(k + 1).drop_last() =~= sv.instruments.take(k as int));
                assert(sv.instruments.take(k + 1).last() == sv.instruments[k as int]);
            }
            let it = &self.instruments[k];
            let selected_here = match filt {
                Some(t) => it.instrument_type_id == t,
                None => true,
            };
            let ghost sel_before = select_items(sv.instruments.take(k as int), filt);
            let ghost sel_after = select_items(sv.instruments.take(k + 1), filt);
            proof {
                if selected_here {
                    assert(sel_after =~= sel_before.push(sv.instruments[k as int]));
                    assert(sel_before.push(sv.instruments[k as int]).drop_last() =~= sel_before);
                } else {
                    assert(sel_after =~= sel_before);
                }
            }
            if selected_here {
                let rented = count_instrument_rentals(w, it.instrument_id);
                match render_item(it, rented) {
                    Some(line) => {
                        lines.push(line);
                        proof {
                            assert(lines@.map_values(|s: String| s@) =~= render_available(
                                sel_after,
                                wv,
                            ));
                        }
                    },
                    None => {
                        proof {
                            assert(available_of(sv.instruments[k as int], wv) <= 0);
                            assert(lines@.map_values(|s: String| s@) =~= render_available(
                                sel_after,
                                wv,
                            ));
                        }
                    },
                }
            }
            k = k + 1;
        }
        proof {
            assert(sv.instruments.take(sv.instruments.len() as int) =~= sv.instruments);
        }
        if lines.len() == 0 {
            proof {
                assert(render_available(select_items(sv.instruments, filt), wv).len() == 0);
            }
            Err(ControlError::NotFound)
        } else {
            Ok(ControlResult::List(lines))
        }
    }

    /// Executes one command: the entry point the surrounding program
    /// drives.
    pub fn execute(&mut self, c: Command) -> (r: Result<ControlResult, ControlError>)
        requires
            wf(old(self)@),
        ensures
            final(self)@ == execute_model(old(self)@, c@).0,
            res_view(r) == execute_model(old(self)@, c@).1,
            wf(final(self)@),
    {
        match c {
            Command::Begin => self.begin(),
            Command::Commit => self.commit(),
            Command::Rent(u, i) => self.rent(u.as_str(), i.as_str()),
            Command::Rollback => self.rollback(),
            Command::Terminate(id) => self.terminate(id.as_str()),
            Command::TryTerminate(u, i) => self.try_terminate(u.as_str(), i.as_str()),
            Command::List(o) => self.list(o),
        }
    }
}

} // verus!
