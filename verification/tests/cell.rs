use std::borrow::Cow;

use melinoe::cell::{cow_if, cow_with};
use melinoe::{
    brand_scope, Borrowed, CowPolicy, ExclusiveToken, MelinoeCell, MelinoeCell2, MelinoeRef,
    RetainDecision, Retained, SharedReadToken,
};

#[test]
fn cell_borrow_reads_through_any_read_permit() {
    brand_scope(|mut token| {
        let a = MelinoeCell::new(1_i32);
        let mut b = MelinoeCell::new(2_i32);
        *b.get_mut() += 10;
        let snap = token.share();
        assert_eq!(*a.borrow(snap) + *b.borrow(snap), 13);
        assert_eq!(*a.borrow(&token), 1);
        assert_eq!(*a.borrow(&mut token), 1);
        let r: MelinoeRef<'_, '_, i32> = b.borrow(&token);
        assert_eq!(*r.into_ref(), 12);
        assert_eq!(b.into_inner(), 12);
    });
}

#[test]
fn two_brand_cell_needs_both_permits() {
    brand_scope(|ta| {
        brand_scope(|tb| {
            let mut cell: MelinoeCell2<'_, '_, u64> = MelinoeCell2::new(5);
            *cell.get_mut() += 1;
            assert_eq!(*cell.borrow(&ta, &tb), 6);
            assert_eq!(*cell.borrow(ta.share(), tb.share()), 6);
            assert_eq!(cell.into_inner(), 6);
        });
    });
}

#[test]
fn cow_policies_borrow_or_clone() {
    let values = [1_u8, 2, 3];
    let borrowed = Borrowed::cow(&values[..]);
    assert!(matches!(borrowed, Cow::Borrowed(_)));
    assert_eq!(&*borrowed, &values[..]);
    let retained = Retained::cow(&values[..]);
    assert!(matches!(retained, Cow::Owned(_)));
    assert_eq!(&*retained, &values[..]);
    assert!(matches!(cow_with(&values[..], Borrowed), Cow::Borrowed(_)));
    assert!(matches!(cow_with(&values[..], Retained), Cow::Owned(_)));
    assert!(matches!(cow_if(&values[..], RetainDecision::Borrow), Cow::Borrowed(_)));
    let owned = cow_if(&values[..], RetainDecision::Retain);
    assert!(matches!(owned, Cow::Owned(_)));
    assert_eq!(owned.into_owned(), vec![1, 2, 3]);
}

#[test]
fn retained_copy_of_empty_slice_is_empty() {
    let empty: [String; 0] = [];
    let retained = Retained::cow(&empty[..]);
    assert!(matches!(retained, Cow::Owned(ref v) if v.is_empty()));
}

#[test]
fn tokens_are_zero_sized() {
    assert_eq!(core::mem::size_of::<ExclusiveToken<'static>>(), 0);
    assert_eq!(core::mem::size_of::<SharedReadToken<'static, 'static>>(), 0);
    assert_eq!(core::mem::size_of::<MelinoeCell<'static, u64>>(), core::mem::size_of::<u64>());
    assert_eq!(
        core::mem::size_of::<MelinoeRef<'static, 'static, u64>>(),
        core::mem::size_of::<&u64>()
    );
    assert_eq!(core::mem::size_of::<Borrowed>(), 0);
    assert_eq!(core::mem::size_of::<Retained>(), 0);
}
