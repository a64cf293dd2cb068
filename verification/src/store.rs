//! The data held by the rental store, modelled as plain values, together
//! with the verified read and write operations the command executor needs.
//!
//! An `Instrument` is reference data: it never changes during a session.
//! A `Renting` is created by the rent operation and is mutated only by
//! setting its end timestamp; a renting is active exactly while that
//! timestamp is absent. Timestamps are plain second counts supplied by the
//! surrounding program.

use vstd::prelude::*;
use vstd::pervasive::VecAdditionalExecFns;

use crate::numeric::fmt_i64;
use crate::numeric::fmt_int;

verus! {

/// One catalogue row: an instrument model the school owns `count` of.
pub struct Instrument {
    /// Identity of the instrument row.
    pub instrument_id: i32,
    /// Identity of the instrument's category.
    pub instrument_type_id: i32,
    /// The maker, e.g. "Steinway".
    pub brand: String,
    /// The model designation.
    pub model: String,
    /// The rental price, already rendered as text, e.g. "150.00".
    pub price: String,
    /// How many the school owns in total, rented ones included.
    pub count: i32,
}

/// One instrument category, e.g. "guitar".
pub struct InstrumentType {
    /// Identity of the category.
    pub instrument_type_id: i32,
    /// The category name.
    pub instrument_type: String,
}

/// One rental record. Active exactly while `end_date` is absent.
#[derive(Clone, Copy, PartialEq, Eq, Debug)]
pub struct Renting {
    /// Identity of the rental record.
    pub rent_id: i32,
    /// The student who rents.
    pub student_id: i32,
    /// The instrument being rented.
    pub instrument_id: i32,
    /// When the rental started.
    pub start_date: i64,
    /// When the rental ended; absent while it is active.
    pub end_date: Option<i64>,
}

/// The mathematical image of an [`Instrument`].
pub struct InstrumentV {
    pub instrument_id: i32,
    pub instrument_type_id: i32,
    pub brand: Seq<char>,
    pub model: Seq<char>,
    pub price: Seq<char>,
    pub count: i32,
}

/// The mathematical image of an [`InstrumentType`].
pub struct InstrumentTypeV {
    pub instrument_type_id: i32,
    pub instrument_type: Seq<char>,
}

impl View for Instrument {
    type V = InstrumentV;

    open spec fn view(&self) -> InstrumentV {
        InstrumentV {
            instrument_id: self.instrument_id,
            instrument_type_id: self.instrument_type_id,
            brand: self.brand@,
            model: self.model@,
            price: self.price@,
            count: self.count,
        }
    }
}

impl View for InstrumentType {
    type V = InstrumentTypeV;

    open spec fn view(&self) -> InstrumentTypeV {
        InstrumentTypeV {
            instrument_type_id: self.instrument_type_id,
            instrument_type: self.instrument_type@,
        }
    }
}

/// A renting is active while its end timestamp is absent.
pub open spec fn is_active(r: Renting) -> bool {
    r.end_date is None
}

/// How many rentings in `rs` are active and belong to user `u`.
pub open spec fn user_active_count(rs: Seq<Renting>, u: i32) -> int
    decreases rs.len(),
{
    if rs.len() == 0 {
        0
    } else {
        user_active_count(rs.drop_last(), u) + if rs.last().student_id == u
            && is_active(rs.last()) {
            1int
        } else {
            0int
        }
    }
}

/// How many rentings in `rs` are active and concern instrument `i`.
pub open spec fn item_active_count(rs: Seq<Renting>, i: i32) -> int
    decreases rs.len(),
{
    if rs.len() == 0 {
        0
    } else {
        item_active_count(rs.drop_last(), i) + if rs.last().instrument_id == i
            && is_active(rs.last()) {
            1int
        } else {
            0int
        }
    }
}

/// The active rentings of `rs` for user `u` and instrument `i`, in order.
pub open spec fn matching_active(rs: Seq<Renting>, u: i32, i: i32) -> Seq<Renting>
    decreases rs.len(),
{
    if rs.len() == 0 {
        Seq::empty()
    } else {
        matching_active(rs.drop_last(), u, i) + if rs.last().student_id == u
            && rs.last().instrument_id == i && is_active(rs.last()) {
            seq![rs.last()]
        } else {
            Seq::empty()
        }
    }
}

/// How many rentings in `rs` carry the identity `id`.
pub open spec fn id_count(rs: Seq<Renting>, id: i32) -> int
    decreases rs.len(),
{
    if rs.len() == 0 {
        0
    } else {
        id_count(rs.drop_last(), id) + if rs.last().rent_id == id {
            1int
        } else {
            0int
        }
    }
}

/// `rs` with the end timestamp of every renting of identity `id` set to `t`.
pub open spec fn terminate_all(rs: Seq<Renting>, id: i32, t: i64) -> Seq<Renting> {
    rs.map_values(
        |r: Renting|
            if r.rent_id == id {
                Renting { end_date: Some(t), ..r }
            } else {
                r
            },
    )
}

/// Rental identities are unique, and `next_id` lies above all of them:
/// the store's primary-key discipline.
pub open spec fn rentals_wf(rs: Seq<Renting>, next_id: i32) -> bool {
    &&& forall|a: int, b: int|
        0 <= a < b < rs.len() ==> rs[a].rent_id != rs[b].rent_id
    &&& forall|a: int| 0 <= a < rs.len() ==> rs[a].rent_id < next_id
}

/// Counts the active rentings of user `u`.
pub fn count_user_rentals(rs: &Vec<Renting>, u: i32) -> (n: usize)
    ensures
        n as int == user_active_count(rs@, u),
{
    let mut n: usize = 0;
    let mut k: usize = 0;
    while k < rs.len()
        invariant
            k <= rs@.len(),
            n <= k,
            n as int == user_active_count(rs@.take(k as int), u),
        decreases rs@.len() - k,
    {
        proof {
            assert(rs@.take(k + 1).drop_last() =~= rs@.take(k as int));
            assert(rs@.take(k + 1).last() == rs@[k as int]);
        }
        let row = rs[k];
        if row.student_id == u && row.end_date.is_none() {
            n = n + 1;
        }
        k = k + 1;
    }
    proof {
        assert(rs@.take(rs@.len() as int) =~= rs@);
    }
    n
}

/// Counts the active rentings of instrument `i`.
pub fn count_instrument_rentals(rs: &Vec<Renting>, i: i32) -> (n: usize)
    ensures
        n as int == item_active_count(rs@, i),
{
    let mut n: usize = 0;
    let mut k: usize = 0;
    while k < rs.len()
        invariant
            k <= rs@.len(),
            n <= k,
            n as int == item_active_count(rs@.take(k as int), i),
        decreases rs@.len() - k,
    {
        proof {
            assert(rs@.take(k + 1).drop_last() =~= rs@.take(k as int));
            assert(rs@.take(k + 1).last() == rs@[k as int]);
        }
        let row = rs[k];
        if row.instrument_id == i && row.end_date.is_none() {
            n = n + 1;
        }
        k = k + 1;
    }
    proof {
        assert(rs@.take(rs@.len() as int) =~= rs@);
    }
    n
}

/// Collects the active rentings of user `u` and instrument `i`, in order.
pub fn find_to_terminate(rs: &Vec<Renting>, u: i32, i: i32) -> (found: Vec<Renting>)
    ensures
        found@ == matching_active(rs@, u, i),
{
    let mut found: Vec<Renting> = Vec::new();
    let mut k: usize = 0;
    while k < rs.len()
        invariant
            k <= rs@.len(),
            found@ == matching_active(rs@.take(k as int), u, i),
        decreases rs@.len() - k,
    {
        proof {
            assert(rs@.take(k + 1).drop_last() =~= rs@.take(k as int));
            assert(rs@.take(k + 1).last() == rs@[k as int]);
        }
        let row = rs[k];
        if row.student_id == u && row.instrument_id == i && row.end_date.is_none() {
            found.push(row);
            proof {
                assert(found@ =~= matching_active(rs@.take(k + 1), u, i));
            }
        } else {
            proof {
                assert(found@ =~= matching_active(rs@.take(k + 1), u, i));
            }
        }
        k = k + 1;
    }
    proof {
        assert(rs@.take(rs@.len() as int) =~= rs@);
    }
    found
}

/// Sets the end timestamp of every renting of identity `id` to `t` and
/// reports how many rows that touched.
pub fn terminate_rid(rs: &mut Vec<Renting>, id: i32, t: i64) -> (n: u64)
    ensures
        final(rs)@ == terminate_all(old(rs)@, id, t),
        n as int == id_count(old(rs)@, id),
{
    let mut n: u64 = 0;
    let mut k: usize = 0;
    while k < rs.len()
        invariant
            k <= rs@.len(),
            rs@.len() == old(rs)@.len(),
            n <= k as u64,
            n as int == id_count(old(rs)@.take(k as int), id),
            forall|j: int|
                0 <= j < k ==> rs@[j] == (if old(rs)@[j].rent_id == id {
                    Renting { end_date: Some(t), ..old(rs)@[j] }
                } else {
                    old(rs)@[j]
                }),
            forall|j: int| k <= j < rs@.len() ==> rs@[j] == old(rs)@[j],
        decreases rs@.len() - k,
    {
        proof {
            assert(old(rs)@.take(k + 1).drop_last() =~= old(rs)@.take(k as int));
            assert(old(rs)@.take(k + 1).last() == old(rs)@[k as int]);
        }
        let row = rs[k];
        if row.rent_id == id {
            let mut updated = row;
            updated.end_date = Some(t);
            rs.set(k, updated);
            n = n + 1;
        }
        k = k + 1;
    }
    proof {
        assert(old(rs)@.take(rs@.len() as int) =~= old(rs)@);
        assert(rs@ =~= terminate_all(old(rs)@, id, t));
    }
    n
}

/// Copies a renting table, so that a transaction can work on a snapshot.
pub fn snapshot(rs: &Vec<Renting>) -> (r: Vec<Renting>)
    ensures
        r@ == rs@,
{
    let mut r: Vec<Renting> = Vec::new();
    let mut k: usize = 0;
    while k < rs.len()
        invariant
            k <= rs@.len(),
            r@ == rs@.take(k as int),
        decreases rs@.len() - k,
    {
        r.push(rs[k]);
        proof {
            assert(r@ =~= rs@.take(k + 1));
        }
        k = k + 1;
    }
    proof {
        assert(rs@.take(rs@.len() as int) =~= rs@);
    }
    r
}

/// The catalogue line shown for an instrument with `available` units free.
pub open spec fn instrument_line(it: InstrumentV, available: int) -> Seq<char> {
    "ID:"@ + fmt_int(it.instrument_id as int) + " => "@ + it.model + " by "@ + it.brand
        + ". Price "@ + it.price + " with "@ + fmt_int(available) + " left to rent out of a total "@
        + fmt_int(it.count as int) + "."@
}

impl Instrument {
    /// Renders this instrument as one catalogue line, annotated with how
    /// many units are available to rent.
    pub fn to_string(&self, available: i64) -> (r: String)
        ensures
            r@ == instrument_line(self@, available as int),
    {
        let mut r = String::from_str("ID:");
        r.append(fmt_i64(self.instrument_id as i64).as_str());
        r.append(" => ");
        r.append(self.model.as_str());
        r.append(" by ");
        r.append(self.brand.as_str());
        r.append(". Price ");
        r.append(self.price.as_str());
        r.append(" with ");
        r.append(fmt_i64(available).as_str());
        r.append(" left to rent out of a total ");
        r.append(fmt_i64(self.count as i64).as_str());
        r.append(".");
        r
    }

    /// The identity of this instrument row.
    pub fn get_id(&self) -> (r: i32)
        ensures
            r == self.instrument_id,
    {
        self.instrument_id
    }

    /// How many of this instrument the school owns in total.
    pub fn get_count(&self) -> (r: i32)
        ensures
            r == self.count,
    {
        self.count
    }
}

impl Renting {
    /// The identity of this rental record.
    pub fn get_id(&self) -> (r: i32)
        ensures
            r == self.rent_id,
    {
        self.rent_id
    }
}

/// ASCII letters are folded to lower case; other characters are kept.
pub open spec fn lower_char(c: char) -> char {
    if 65 <= c as int && c as int <= 90 {
        (((c as int) + 32) as u8) as char
    } else {
        c
    }
}

/// The character-wise ASCII lower-casing of `s`.
pub open spec fn lower(s: Seq<char>) -> Seq<char> {
    s.map_values(|c: char| lower_char(c))
}

/// `p` is an initial segment of `s`.
pub open spec fn is_prefix_of(p: Seq<char>, s: Seq<char>) -> bool {
    p.len() <= s.len() && p =~= s.take(p.len() as int)
}

fn lower_char_x(c: char) -> (r: char)
    ensures
        r == lower_char(c),
{
    let u = c as u32;
    if 65 <= u && u <= 90 {
        ((u + 32) as u8) as char
    } else {
        c
    }
}

/// Whether `filter` is a prefix of `name` when both are compared with
/// ASCII letters folded to lower case.
pub fn type_matches(filter: &str, name: &str) -> (r: bool)
    ensures
        r == is_prefix_of(lower(filter@), lower(name@)),
{
    let flen = filter.unicode_len();
    let nlen = name.unicode_len();
    if flen > nlen {
        return false;
    }
    let mut k: usize = 0;
    while k < flen
        invariant
            k <= flen,
            flen <= nlen,
            flen == filter@.len(),
            nlen == name@.len(),
            forall|j: int| 0 <= j < k ==> lower_char(filter@[j]) == lower_char(name@[j]),
        decreases flen - k,
    {
        let fc = lower_char_x(filter.get_char(k));
        let nc = lower_char_x(name.get_char(k));
        if fc != nc {
            proof {
                assert(lower(filter@)[k as int] == lower_char(filter@[k as int]));
                assert(lower(name@).take(flen as int)[k as int] == lower_char(name@[k as int]));
            }
            return false;
        }
        k = k + 1;
    }
    proof {
        assert(lower(filter@) =~= lower(name@).take(flen as int));
    }
    true
}

} // verus!
