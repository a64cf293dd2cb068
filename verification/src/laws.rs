//! The general properties of the command executor, stated over the same
//! functional model the operations' contracts use, and proved once for
//! all inputs.

use vstd::prelude::*;

use crate::controller::CErrorV;
use crate::controller::CResultV;
use crate::controller::StateV;
use crate::controller::available_of;
use crate::controller::list_model;
use crate::controller::render_available;
use crate::controller::rent_model;
use crate::controller::terminate_model;
use crate::controller::try_terminate_model;
use crate::numeric::int_value;
use crate::numeric::is_i32_text;
use crate::numeric::is_i64_text;
use crate::store::InstrumentV;
use crate::store::Renting;
use crate::store::id_count;
use crate::store::instrument_line;
use crate::store::is_active;
use crate::store::matching_active;
use crate::store::rentals_wf;
use crate::store::terminate_all;
use crate::store::user_active_count;

verus! {

/// The working rental table of a state with an open transaction.
pub open spec fn tx_of(s: StateV) -> Seq<Renting> {
    match s.tx {
        Some(w) => w,
        None => Seq::empty(),
    }
}

/// The states an unbroken run of rent calls for one pair goes through.
pub open spec fn rent_n(s: StateV, user: Seq<char>, inst: Seq<char>, n: nat) -> StateV
    decreases n,
{
    if n == 0 {
        s
    } else {
        rent_model(rent_n(s, user, inst, (n - 1) as nat), user, inst).0
    }
}

/// Every one of the first `n` rent calls of the run was admitted.
pub open spec fn rent_n_all_ok(s: StateV, user: Seq<char>, inst: Seq<char>, n: nat) -> bool
    decreases n,
{
    if n == 0 {
        true
    } else {
        rent_n_all_ok(s, user, inst, (n - 1) as nat) && rent_model(
            rent_n(s, user, inst, (n - 1) as nat),
            user,
            inst,
        ).1 == Ok::<CResultV, CErrorV>(CResultV::Rent(1))
    }
}

proof fn lemma_count_push(w: Seq<Renting>, row: Renting, u: i32)
    ensures
        user_active_count(w.push(row), u) == user_active_count(w, u) + if row.student_id == u
            && is_active(row) {
            1int
        } else {
            0int
        },
{
    assert(w.push(row).drop_last() =~= w);
}

/// A rent call made while the user already holds as many active rentals
/// as the configured maximum is refused with `RentalCapExceeded`, and the
/// state, so in particular the rental table, is left untouched.
pub proof fn lemma_rent_at_cap(s: StateV, user: Seq<char>, inst: Seq<char>)
    requires
        is_i32_text(user),
        is_i32_text(inst),
        s.tx is Some,
        is_i64_text(s.max_rentals_value),
        user_active_count(tx_of(s), int_value(user) as i32) >= int_value(s.max_rentals_value),
    ensures
        rent_model(s, user, inst) == (s, Err::<CResultV, CErrorV>(CErrorV::RentalCapExceeded)),
{
}

/// An admitted rent call returns one affected row, appends exactly one
/// new active rental of the pair, raises the user's active count by one
/// while keeping it within the cap, and leaves every other user's count
/// alone.
pub proof fn lemma_rent_success(s: StateV, user: Seq<char>, inst: Seq<char>)
    requires
        is_i32_text(user),
        is_i32_text(inst),
        s.tx is Some,
        is_i64_text(s.max_rentals_value),
        user_active_count(tx_of(s), int_value(user) as i32) < int_value(s.max_rentals_value),
        s.next_rent_id < i32::MAX,
    ensures
        rent_model(s, user, inst).1 == Ok::<CResultV, CErrorV>(CResultV::Rent(1)),
        ({
            let s2 = rent_model(s, user, inst).0;
            let u = int_value(user) as i32;
            let row = Renting {
                rent_id: s.next_rent_id,
                student_id: u,
                instrument_id: int_value(inst) as i32,
                start_date: s.now,
                end_date: None,
            };
            &&& s2.tx == Some(tx_of(s).push(row))
            &&& user_active_count(tx_of(s2), u) == user_active_count(tx_of(s), u) + 1
            &&& user_active_count(tx_of(s2), u) <= int_value(s.max_rentals_value)
            &&& forall|u2: i32|
                u2 != u ==> user_active_count(tx_of(s2), u2) == user_active_count(tx_of(s), u2)
            &&& s2.rentings == s.rentings
            &&& s2.next_rent_id == s.next_rent_id + 1
        }),
{
    let u = int_value(user) as i32;
    let row = Renting {
        rent_id: s.next_rent_id,
        student_id: u,
        instrument_id: int_value(inst) as i32,
        start_date: s.now,
        end_date: None,
    };
    lemma_count_push(tx_of(s), row, u);
    assert forall|u2: i32| u2 != u implies user_active_count(
        tx_of(rent_model(s, user, inst).0),
        u2,
    ) == user_active_count(tx_of(s), u2) by {
        lemma_count_push(tx_of(s), row, u2);
    }
}

/// A run of rent calls for one user stays admitted while it keeps the
/// user's active count within the configured maximum: after `n` admitted
/// calls the count has grown by exactly `n`.
pub proof fn lemma_rent_run(s: StateV, user: Seq<char>, inst: Seq<char>, n: nat)
    requires
        is_i32_text(user),
        is_i32_text(inst),
        s.tx is Some,
        is_i64_text(s.max_rentals_value),
        user_active_count(tx_of(s), int_value(user) as i32) + n <= int_value(
            s.max_rentals_value,
        ),
        s.next_rent_id + n <= i32::MAX,
    ensures
        rent_n_all_ok(s, user, inst, n),
        ({
            let s2 = rent_n(s, user, inst, n);
            &&& s2.tx is Some
            &&& user_active_count(tx_of(s2), int_value(user) as i32) == user_active_count(
                tx_of(s),
                int_value(user) as i32,
            ) + n
            &&& s2.max_rentals_value == s.max_rentals_value
            &&& s2.next_rent_id == s.next_rent_id + n
            &&& s2.now == s.now
        }),
    decreases n,
{
    if n > 0 {
        lemma_rent_run(s, user, inst, (n - 1) as nat);
        lemma_rent_success(rent_n(s, user, inst, (n - 1) as nat), user, inst);
    }
}

/// Once a user's admitted rentals have filled the configured maximum,
/// the next rent call for that user is refused with `RentalCapExceeded`
/// and inserts nothing: the whole state is exactly the one the run
/// reached.
pub proof fn lemma_rent_cap_reached(s: StateV, user: Seq<char>, inst: Seq<char>, n: nat)
    requires
        is_i32_text(user),
        is_i32_text(inst),
        s.tx is Some,
        is_i64_text(s.max_rentals_value),
        user_active_count(tx_of(s), int_value(user) as i32) + n == int_value(
            s.max_rentals_value,
        ),
        s.next_rent_id + n <= i32::MAX,
    ensures
        rent_n_all_ok(s, user, inst, n),
        rent_model(rent_n(s, user, inst, n), user, inst) == (
            rent_n(s, user, inst, n),
            Err::<CResultV, CErrorV>(CErrorV::RentalCapExceeded),
        ),
{
    lemma_rent_run(s, user, inst, n);
    lemma_rent_at_cap(rent_n(s, user, inst, n), user, inst);
}

proof fn lemma_id_count_zero(w: Seq<Renting>, id: i32)
    requires
        forall|j: int| 0 <= j < w.len() ==> w[j].rent_id != id,
    ensures
        id_count(w, id) == 0,
    decreases w.len(),
{
    if w.len() > 0 {
        assert(forall|j: int|
            0 <= j < w.drop_last().len() ==> w.drop_last()[j] == w[j]);
        lemma_id_count_zero(w.drop_last(), id);
    }
}

proof fn lemma_id_count_unique(w: Seq<Renting>, next_id: i32, j: int)
    requires
        rentals_wf(w, next_id),
        0 <= j < w.len(),
    ensures
        id_count(w, w[j].rent_id) == 1,
    decreases w.len(),
{
    if j == w.len() - 1 {
        assert(forall|k: int|
            0 <= k < w.drop_last().len() ==> w.drop_last()[k].rent_id != w[j].rent_id);
        lemma_id_count_zero(w.drop_last(), w[j].rent_id);
    } else {
        assert(forall|k: int| 0 <= k < w.drop_last().len() ==> w.drop_last()[k] == w[k]);
        lemma_id_count_unique(w.drop_last(), next_id, j);
        assert(w.last().rent_id != w[j].rent_id);
    }
}

proof fn lemma_matching_active_member(w: Seq<Renting>, u: i32, i: i32, j: int)
    requires
        0 <= j < matching_active(w, u, i).len(),
    ensures
        exists|k: int| 0 <= k < w.len() && w[k] == matching_active(w, u, i)[j],
        matching_active(w, u, i)[j].student_id == u,
        matching_active(w, u, i)[j].instrument_id == i,
        is_active(matching_active(w, u, i)[j]),
    decreases w.len(),
{
    if w.len() > 0 {
        let prev = matching_active(w.drop_last(), u, i);
        if j < prev.len() {
            lemma_matching_active_member(w.drop_last(), u, i, j);
            let k = choose|k: int| 0 <= k < w.drop_last().len() && w.drop_last()[k] == prev[j];
            assert(w[k] == matching_active(w, u, i)[j]);
        } else {
            assert(w[w.len() - 1] == matching_active(w, u, i)[j]);
        }
    }
}

/// A try-terminate that matches exactly one active rental terminates
/// exactly that row — it alone gains the end timestamp, every other row
/// is untouched — and reports one affected row.
pub proof fn lemma_try_terminate_single(s: StateV, user: Seq<char>, inst: Seq<char>)
    requires
        is_i32_text(user),
        is_i32_text(inst),
        s.tx is Some,
        rentals_wf(tx_of(s), s.next_rent_id),
        matching_active(tx_of(s), int_value(user) as i32, int_value(inst) as i32).len() == 1,
    ensures
        ({
            let w = tx_of(s);
            let m = matching_active(w, int_value(user) as i32, int_value(inst) as i32)[0];
            let w2 = terminate_all(w, m.rent_id, s.now);
            &&& try_terminate_model(s, user, inst) == (
                StateV { tx: Some(w2), ..s },
                Ok::<CResultV, CErrorV>(CResultV::TryTerminate(1)),
            )
            &&& w2.len() == w.len()
            &&& forall|j: int|
                0 <= j < w.len() && w[j].rent_id != m.rent_id ==> w2[j] == w[j]
            &&& forall|j: int|
                0 <= j < w.len() && w[j].rent_id == m.rent_id ==> w2[j] == (Renting {
                    end_date: Some(s.now),
                    ..w[j]
                })
        }),
{
    let w = tx_of(s);
    let u = int_value(user) as i32;
    let i = int_value(inst) as i32;
    let m = matching_active(w, u, i)[0];
    lemma_matching_active_member(w, u, i, 0);
    let k = choose|k: int| 0 <= k < w.len() && w[k] == m;
    lemma_id_count_unique(w, s.next_rent_id, k);
}

/// A try-terminate that matches several active rentals fails with
/// `AmbiguousTermination` carrying exactly the matching set, and changes
/// nothing: every match is still active.
pub proof fn lemma_try_terminate_ambiguous(s: StateV, user: Seq<char>, inst: Seq<char>)
    requires
        is_i32_text(user),
        is_i32_text(inst),
        s.tx is Some,
        matching_active(tx_of(s), int_value(user) as i32, int_value(inst) as i32).len() >= 2,
    ensures
        try_terminate_model(s, user, inst) == (
            s,
            Err::<CResultV, CErrorV>(
                CErrorV::AmbiguousTermination(
                    matching_active(tx_of(s), int_value(user) as i32, int_value(inst) as i32),
                ),
            ),
        ),
        forall|j: int|
            0 <= j < matching_active(
                tx_of(s),
                int_value(user) as i32,
                int_value(inst) as i32,
            ).len() ==> is_active(
                #[trigger] matching_active(
                    tx_of(s),
                    int_value(user) as i32,
                    int_value(inst) as i32,
                )[j],
            ),
{
    let u = int_value(user) as i32;
    let i = int_value(inst) as i32;
    assert forall|j: int| 0 <= j < matching_active(tx_of(s), u, i).len() implies is_active(
        #[trigger] matching_active(tx_of(s), u, i)[j],
    ) by {
        lemma_matching_active_member(tx_of(s), u, i, j);
    }
}

/// With no open transaction, rent, try-terminate, terminate by identity
/// and list all fail with `NoActiveTransaction` and mutate nothing. The
/// user and instrument words must parse: rent and try-terminate check the
/// identifiers first, so a malformed identifier is reported instead.
pub proof fn lemma_no_open_transaction(
    s: StateV,
    user: Seq<char>,
    inst: Seq<char>,
    id_text: Seq<char>,
    filter: Option<Seq<char>>,
)
    requires
        s.tx is None,
        is_i32_text(user),
        is_i32_text(inst),
    ensures
        rent_model(s, user, inst) == (s, Err::<CResultV, CErrorV>(CErrorV::NoActiveTransaction)),
        try_terminate_model(s, user, inst) == (
            s,
            Err::<CResultV, CErrorV>(CErrorV::NoActiveTransaction),
        ),
        terminate_model(s, id_text) == (s, Err::<CResultV, CErrorV>(CErrorV::NoActiveTransaction)),
        list_model(s, filter) == (s, Err::<CResultV, CErrorV>(CErrorV::NoActiveTransaction)),
{
}

/// An instrument is kept by the listing while it has availability left.
pub open spec fn keeps(w: Seq<Renting>) -> spec_fn(InstrumentV) -> bool {
    |it: InstrumentV| available_of(it, w) > 0
}

/// The line an instrument is rendered as, with its own availability.
pub open spec fn line_of(w: Seq<Renting>) -> spec_fn(InstrumentV) -> Seq<char> {
    |it: InstrumentV| instrument_line(it, available_of(it, w))
}

/// What the listing shows is exactly the catalogue filtered to the
/// instruments with availability left, each rendered with its own
/// availability: an instrument whose active rentals equal its owned count
/// is excluded, one with a single unit left is included.
pub proof fn lemma_render_available_filter(items: Seq<InstrumentV>, w: Seq<Renting>)
    ensures
        render_available(items, w) == items.filter(keeps(w)).map_values(line_of(w)),
    decreases items.len(),
{
    reveal(Seq::filter);
    let p = keeps(w);
    let f = line_of(w);
    if items.len() == 0 {
        assert(items.filter(p) =~= items);
        assert(render_available(items, w) =~= items.filter(p).map_values(f));
    } else {
        let prev = items.drop_last();
        lemma_render_available_filter(prev, w);
        if p(items.last()) {
            assert(items.filter(p) == prev.filter(p).push(items.last()));
            assert(prev.filter(p).push(items.last()).map_values(f) =~= prev.filter(p).map_values(
                f,
            ).push(f(items.last())));
            assert(render_available(items, w) =~= items.filter(p).map_values(f));
        } else {
            assert(items.filter(p) == prev.filter(p));
            assert(render_available(items, w) =~= items.filter(p).map_values(f));
        }
    }
}

} // verus!

