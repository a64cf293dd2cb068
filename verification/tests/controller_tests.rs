use sgdb::controller::Command;
use sgdb::controller::ControlError;
use sgdb::controller::ControlResult;
use sgdb::controller::Controller;
use sgdb::controller::check_rent_admission;
use sgdb::controller::resolve_termination;
use sgdb::controller::u_i_parse;
use sgdb::store::Instrument;
use sgdb::store::InstrumentType;
use sgdb::store::Renting;

const TEST_INSTRUMENT_ID: &str = "1";
const TEST_STUDENT_ID: &str = "3";

fn instrument(id: i32, tid: i32, brand: &str, model: &str, price: &str, count: i32) -> Instrument {
    Instrument {
        instrument_id: id,
        instrument_type_id: tid,
        brand: String::from(brand),
        model: String::from(model),
        price: String::from(price),
        count,
    }
}

fn sample(max: &str) -> Controller {
    Controller::new(
        vec![
            instrument(1, 10, "Steinway", "Alpha 160", "150.00", 2),
            instrument(2, 20, "Selmer", "Mark VI", "300.00", 1),
        ],
        vec![
            InstrumentType {
                instrument_type_id: 10,
                instrument_type: String::from("guitar"),
            },
            InstrumentType {
                instrument_type_id: 20,
                instrument_type: String::from("saxophone"),
            },
        ],
        Vec::new(),
        String::from(max),
        1,
        1000,
    )
}

#[test]
fn test_rent_too_many() {
    let max = 2;
    let mut c = sample("2");
    c.begin().unwrap();

    for _ in 0..max {
        let v = c.rent(TEST_STUDENT_ID, TEST_INSTRUMENT_ID);
        if v.is_err() {
            c.rollback().unwrap();
            panic!("Failed renting, wrong params for rent()?");
        } else {
            assert_eq!(v.unwrap(), ControlResult::Rent(1));
        }
    }

    let v = c.rent(TEST_STUDENT_ID, TEST_INSTRUMENT_ID);
    if v.is_ok() {
        c.rollback().unwrap();
        panic!("Renting should fail above max allowed")
    }

    assert_eq!(v.unwrap_err(), ControlError::RentalCapExceeded);
    c.rollback().unwrap();
}

#[test]
fn test_terminate_multiple() {
    let mut c = sample("5");
    c.begin().unwrap();

    for _ in 0..2 {
        let v = c.rent(TEST_STUDENT_ID, TEST_INSTRUMENT_ID);
        if v.is_err() {
            c.rollback().unwrap();
            panic!("Failed renting, wrong params for rent()?");
        } else {
            assert_eq!(v.unwrap(), ControlResult::Rent(1));
        }
    }

    let v = c.try_terminate(TEST_STUDENT_ID, TEST_INSTRUMENT_ID);
    if v.is_ok() {
        c.rollback().unwrap();
        panic!("Having mutliple possible terminations should return an error!")
    }

    assert!(matches!(
        v.unwrap_err(),
        ControlError::AmbiguousTermination(_)
    ));
    c.rollback().unwrap();
}

#[test]
fn test_guard() {
    let mut c = sample("2");
    let v = c.rent(TEST_STUDENT_ID, TEST_INSTRUMENT_ID);
    assert_eq!(v.unwrap_err(), ControlError::NoActiveTransaction);
    let v = c.try_terminate(TEST_STUDENT_ID, TEST_INSTRUMENT_ID);
    assert_eq!(v.unwrap_err(), ControlError::NoActiveTransaction);
    let v = c.terminate("0");
    assert_eq!(v.unwrap_err(), ControlError::NoActiveTransaction);
    let v = c.list(None);
    assert_eq!(v.unwrap_err(), ControlError::NoActiveTransaction);
}

#[test]
fn test_guard_checks_identifiers_first() {
    // Rent and try-terminate validate their identifiers before looking
    // at the transaction, so a malformed identifier wins even with no
    // transaction open.
    let mut c = sample("2");
    assert_eq!(
        c.rent("x", TEST_INSTRUMENT_ID).unwrap_err(),
        ControlError::InvalidIdentifier
    );
    assert_eq!(
        c.try_terminate("x", TEST_INSTRUMENT_ID).unwrap_err(),
        ControlError::InvalidIdentifier
    );
}

#[test]
fn test_ambiguous_carries_candidates_then_identity_terminates() {
    let mut c = sample("5");
    c.execute(Command::Begin).unwrap();
    assert_eq!(c.rent("3", "1").unwrap(), ControlResult::Rent(1));
    assert_eq!(c.rent("3", "1").unwrap(), ControlResult::Rent(1));

    let e = c.try_terminate("3", "1").unwrap_err();
    let candidates: Vec<Renting> = match e {
        ControlError::AmbiguousTermination(v) => v,
        other => panic!("expected an ambiguity, got {:?}", other),
    };
    assert_eq!(candidates.len(), 2);
    assert!(candidates.iter().all(|r| r.student_id == 3
        && r.instrument_id == 1
        && r.end_date.is_none()));

    let chosen = candidates[0].get_id();
    let r = c.terminate(&chosen.to_string()).unwrap();
    assert_eq!(r, ControlResult::Terminate(1));

    // Only one candidate is left active now.
    let e = c.try_terminate("3", "1");
    assert_eq!(e.unwrap(), ControlResult::TryTerminate(1));
}

#[test]
fn test_try_terminate_single_and_not_found() {
    let mut c = sample("5");
    c.begin().unwrap();
    assert_eq!(c.rent("3", "1").unwrap(), ControlResult::Rent(1));
    assert_eq!(c.try_terminate("3", "1").unwrap(), ControlResult::TryTerminate(1));
    assert_eq!(c.try_terminate("3", "1").unwrap_err(), ControlError::NotFound);
}

#[test]
fn test_terminate_unknown_identity_affects_zero_rows() {
    let mut c = sample("5");
    c.begin().unwrap();
    assert_eq!(c.terminate("99").unwrap(), ControlResult::Terminate(0));
}

#[test]
fn test_rental_timestamps_follow_the_clock() {
    let mut c = sample("5");
    c.set_now(42);
    c.begin().unwrap();
    c.rent("3", "1").unwrap();
    c.rent("3", "1").unwrap();
    let e = c.try_terminate("3", "1").unwrap_err();
    match e {
        ControlError::AmbiguousTermination(v) => {
            assert!(v.iter().all(|r| r.start_date == 42));
        }
        other => panic!("expected an ambiguity, got {:?}", other),
    }
}

#[test]
fn test_list_boundary_availability() {
    let mut c = sample("5");
    c.begin().unwrap();

    let all = match c.list(None).unwrap() {
        ControlResult::List(v) => v,
        other => panic!("expected a listing, got {:?}", other),
    };
    assert_eq!(
        all,
        vec![
            String::from(
                "ID:1 => Alpha 160 by Steinway. Price 150.00 with 2 left to rent out of a total 2."
            ),
            String::from(
                "ID:2 => Mark VI by Selmer. Price 300.00 with 1 left to rent out of a total 1."
            ),
        ]
    );

    // One of two units rented: still included, with one left.
    c.rent("3", "1").unwrap();
    let all = match c.list(None).unwrap() {
        ControlResult::List(v) => v,
        other => panic!("expected a listing, got {:?}", other),
    };
    assert_eq!(
        all,
        vec![
            String::from(
                "ID:1 => Alpha 160 by Steinway. Price 150.00 with 1 left to rent out of a total 2."
            ),
            String::from(
                "ID:2 => Mark VI by Selmer. Price 300.00 with 1 left to rent out of a total 1."
            ),
        ]
    );

    // Both units rented: the active count equals the owned count, so the
    // instrument is excluded.
    c.rent("4", "1").unwrap();
    let all = match c.list(None).unwrap() {
        ControlResult::List(v) => v,
        other => panic!("expected a listing, got {:?}", other),
    };
    assert_eq!(
        all,
        vec![String::from(
            "ID:2 => Mark VI by Selmer. Price 300.00 with 1 left to rent out of a total 1."
        )]
    );
}

#[test]
fn test_list_filter_is_case_insensitive_prefix() {
    let mut c = sample("5");
    c.begin().unwrap();

    let guitars = match c.list(Some(String::from("GUI"))).unwrap() {
        ControlResult::List(v) => v,
        other => panic!("expected a listing, got {:?}", other),
    };
    assert_eq!(guitars.len(), 1);
    assert!(guitars[0].starts_with("ID:1 "));

    assert_eq!(
        c.list(Some(String::from("zither"))).unwrap_err(),
        ControlError::NotFound
    );
}

#[test]
fn test_list_everything_rented_is_not_found() {
    let mut c = sample("5");
    c.begin().unwrap();
    c.rent("3", "1").unwrap();
    c.rent("4", "1").unwrap();
    c.rent("5", "2").unwrap();
    assert_eq!(c.list(None).unwrap_err(), ControlError::NotFound);
}

#[test]
fn test_commit_persists_and_rollback_discards() {
    let mut c = sample("1");
    c.begin().unwrap();
    assert_eq!(c.rent("3", "1").unwrap(), ControlResult::Rent(1));
    assert_eq!(c.commit().unwrap(), ControlResult::Commit);

    // The committed rental still counts against the cap in the next
    // transaction.
    c.begin().unwrap();
    assert_eq!(c.rent("3", "2").unwrap_err(), ControlError::RentalCapExceeded);
    assert_eq!(c.rollback().unwrap(), ControlResult::Rollback);

    // A rolled-back rental does not.
    let mut c = sample("1");
    c.begin().unwrap();
    assert_eq!(c.rent("3", "1").unwrap(), ControlResult::Rent(1));
    assert_eq!(c.rollback().unwrap(), ControlResult::Rollback);
    c.begin().unwrap();
    assert_eq!(c.rent("3", "1").unwrap(), ControlResult::Rent(1));
}

#[test]
fn test_begin_discards_an_open_transaction() {
    let mut c = sample("1");
    assert_eq!(c.begin().unwrap(), ControlResult::Begin);
    assert_eq!(c.rent("3", "1").unwrap(), ControlResult::Rent(1));
    // A second begin throws the uncommitted rental away.
    assert_eq!(c.begin().unwrap(), ControlResult::Begin);
    assert_eq!(c.rent("3", "1").unwrap(), ControlResult::Rent(1));
}

#[test]
fn test_commit_and_rollback_need_a_transaction() {
    let mut c = sample("2");
    assert_eq!(c.commit().unwrap_err(), ControlError::NoActiveTransaction);
    assert_eq!(c.rollback().unwrap_err(), ControlError::NoActiveTransaction);
}

#[test]
fn test_invalid_configuration() {
    let mut c = sample("two");
    c.begin().unwrap();
    assert_eq!(
        c.rent("3", "1").unwrap_err(),
        ControlError::InvalidConfiguration
    );
}

#[test]
fn test_negative_cap_refuses_every_rental() {
    let mut c = sample("-1");
    c.begin().unwrap();
    assert_eq!(c.rent("3", "1").unwrap_err(), ControlError::RentalCapExceeded);
}

#[test]
fn test_execute_dispatches() {
    let mut c = sample("2");
    assert_eq!(c.execute(Command::Begin).unwrap(), ControlResult::Begin);
    assert_eq!(
        c.execute(Command::Rent(String::from("3"), String::from("1"))).unwrap(),
        ControlResult::Rent(1)
    );
    assert_eq!(
        c.execute(Command::TryTerminate(String::from("3"), String::from("1"))).unwrap(),
        ControlResult::TryTerminate(1)
    );
    assert_eq!(c.execute(Command::Commit).unwrap(), ControlResult::Commit);
}

#[test]
fn test_check_rent_admission() {
    assert!(check_rent_admission("2", 0).is_ok());
    assert!(check_rent_admission("2", 1).is_ok());
    assert_eq!(
        check_rent_admission("2", 2).unwrap_err(),
        ControlError::RentalCapExceeded
    );
    assert_eq!(
        check_rent_admission("-1", 0).unwrap_err(),
        ControlError::RentalCapExceeded
    );
    assert_eq!(
        check_rent_admission("two", 0).unwrap_err(),
        ControlError::InvalidConfiguration
    );
}

#[test]
fn test_resolve_termination() {
    let row = |id: i32| Renting {
        rent_id: id,
        student_id: 3,
        instrument_id: 1,
        start_date: 0,
        end_date: None,
    };
    assert_eq!(
        resolve_termination(Vec::new()).unwrap_err(),
        ControlError::NotFound
    );
    assert_eq!(resolve_termination(vec![row(7)]).unwrap(), 7);
    assert_eq!(
        resolve_termination(vec![row(7), row(8)]).unwrap_err(),
        ControlError::AmbiguousTermination(vec![row(7), row(8)])
    );
}

#[test]
fn test_u_i_parse() {
    assert_eq!(u_i_parse("3", "1").unwrap(), (3, 1));
    assert_eq!(u_i_parse("-3", "+1").unwrap(), (-3, 1));
    assert_eq!(
        u_i_parse("x", "1").unwrap_err(),
        ControlError::InvalidIdentifier
    );
    assert_eq!(
        u_i_parse("1", "").unwrap_err(),
        ControlError::InvalidIdentifier
    );
}
