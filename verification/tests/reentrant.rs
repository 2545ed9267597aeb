use melinoe::reentrant::gate_decision;
use melinoe::{GuardedCell, MelinoeCell, ReentrancyCell, Reentered};

#[test]
fn reentrant_enter_is_refused_not_aliased() {
    let gate = ReentrancyCell::new();
    assert!(!gate.is_active());
    let out = gate.enter(|mut token| {
        let mut slot = MelinoeCell::new(0_u64);
        *slot.get_mut() = 7;
        assert!(gate.is_active());
        assert_eq!(gate.enter(|_| ()), Err(Reentered));
        let _ = &mut token;
        *slot.borrow(&token)
    });
    assert_eq!(out, Ok(7));
    assert!(!gate.is_active());
}

#[test]
fn gate_decision_refuses_exactly_when_held() {
    assert_eq!(gate_decision(true), Err(Reentered));
    assert_eq!(gate_decision(false), Ok(()));
}

#[test]
fn reentered_describes_itself() {
    assert_eq!(
        Reentered.message(),
        "re-entrant ReentrancyCell::enter (gate already held on this thread)"
    );
    assert_eq!(Reentered::default(), Reentered);
}

#[test]
fn guarded_cell_hands_out_one_borrow_at_a_time() {
    let cache = GuardedCell::new(0_u64);
    assert_eq!(cache.enter(|n| {
        *n += 41;
        *n
    }), Ok(41));
    assert_eq!(cache.enter(|_| cache.enter(|_| ())).unwrap(), Err(Reentered));
    assert!(!cache.is_active());
    assert_eq!(cache.enter(|_| cache.is_active()), Ok(true));
    assert_eq!(cache.into_inner(), 41);
}

#[test]
fn guarded_cell_unguarded_path_still_refuses_reentry() {
    let cell = GuardedCell::new(vec![1_u8]);
    assert_eq!(cell.enter_unguarded(|v| {
        v.push(2);
        v.len()
    }), Ok(2));
    assert_eq!(cell.enter_unguarded(|_| cell.enter(|_| ())), Ok(Err(Reentered)));
    assert_eq!(cell.enter(|_| cell.enter_unguarded(|_| ())), Ok(Err(Reentered)));
    assert!(!cell.is_active());
}

#[test]
fn guarded_cell_get_mut_needs_no_flag() {
    let mut cell: GuardedCell<i32> = GuardedCell::default();
    *cell.get_mut() = -5;
    assert_eq!(cell.enter(|v| *v), Ok(-5));
}
