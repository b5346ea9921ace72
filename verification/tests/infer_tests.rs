use lib::channels::{
    channel_builtin, next_channel_type_var, reset_channel_type_var_counter, ChannelError, ChannelKind,
    ChannelTypeVarCounter,
};
use lib::generics::{apply_subs, unify, UnifyError};
use lib::registry::{InterfaceRegistry, RefinesRegistry};
use lib::subst::Substitutions;
use lib::ty::{PrimTy, Ty};
use lib::tyops::{fits_return, ty_name, unify_arm_types};

fn int_ty() -> Ty {
    Ty::Prim(PrimTy::Int)
}

fn text() -> Ty {
    Ty::Prim(PrimTy::Text)
}

fn var(n: &str) -> Ty {
    Ty::Var(n.to_string())
}

fn show(t: &Ty) -> String {
    format!("{:?}", t)
}

#[test]
fn unify_binds_type_parameter_and_apply_substitutes() {
    let mut subs = Substitutions::new();
    let r = unify(
        &[Ty::List(Box::new(var("T")))],
        &[Ty::List(Box::new(int_ty()))],
        &["T".to_string()],
        &mut subs,
        &RefinesRegistry::new(),
        &InterfaceRegistry::new(),
    );
    assert!(r.is_ok());
    let t = apply_subs(&Ty::Tuple(vec![var("T"), var("U")]), &subs);
    assert_eq!(show(&t), show(&Ty::Tuple(vec![int_ty(), var("U")])));
}

#[test]
fn unify_reports_a_mismatch() {
    let mut subs = Substitutions::new();
    let r = unify(&[int_ty()], &[text()], &[], &mut subs, &RefinesRegistry::new(), &InterfaceRegistry::new());
    match r {
        Err(UnifyError::Mismatch { expected, found }) => {
            assert_eq!(show(&expected), show(&int_ty()));
            assert_eq!(show(&found), show(&text()));
        }
        other => panic!("unexpected {:?}", other),
    }
}

#[test]
fn parameter_bound_twice_must_agree() {
    let mut subs = Substitutions::new();
    let r = unify(
        &[var("T"), var("T")],
        &[int_ty(), text()],
        &["T".to_string()],
        &mut subs,
        &RefinesRegistry::new(),
        &InterfaceRegistry::new(),
    );
    match r {
        Err(UnifyError::Mismatch { expected, found }) => {
            assert_eq!(show(&expected), show(&int_ty()));
            assert_eq!(show(&found), show(&text()));
        }
        other => panic!("unexpected {:?}", other),
    }
    assert_eq!(format!("{:?}", subs.get(&"T".to_string())), format!("Some({:?})", int_ty()));
}

#[test]
fn interface_parameter_needs_an_implementation() {
    let mut subs = Substitutions::new();
    let mut impls = InterfaceRegistry::new();
    let r = unify(
        &[Ty::Interface("SHOW".to_string())],
        &[int_ty()],
        &["SHOW".to_string()],
        &mut subs,
        &RefinesRegistry::new(),
        &impls,
    );
    match r {
        Err(UnifyError::NotImplemented { iface, tname }) => {
            assert_eq!(iface, "SHOW");
            assert_eq!(tname, "Int");
        }
        other => panic!("unexpected {:?}", other),
    }
    impls.register("Int".to_string(), "SHOW".to_string());
    let mut subs = Substitutions::new();
    let r = unify(
        &[Ty::Interface("SHOW".to_string())],
        &[int_ty()],
        &["SHOW".to_string()],
        &mut subs,
        &RefinesRegistry::new(),
        &impls,
    );
    assert!(r.is_ok());
}

#[test]
fn channel_type_variables_count_up_and_reset() {
    let mut c = ChannelTypeVarCounter::new();
    assert_eq!(next_channel_type_var(&mut c), "T0");
    assert_eq!(next_channel_type_var(&mut c), "T1");
    reset_channel_type_var_counter(&mut c);
    assert_eq!(next_channel_type_var(&mut c), "T0");
}

#[test]
fn queue_needs_a_positive_capacity() {
    let mut c = ChannelTypeVarCounter::new();
    match channel_builtin(ChannelKind::Buffered(0), &mut c) {
        Err(e) => assert_eq!(e, ChannelError::NonPositiveCapacity(0)),
        Ok(_) => panic!("a queue of capacity 0 was accepted"),
    }
    let ok = channel_builtin(ChannelKind::Buffered(4), &mut c).ok().unwrap();
    assert_eq!(show(&ok.elem_ty), show(&var("T0")));
}

#[test]
fn broadcast_hands_out_a_receiver_factory() {
    let mut c = ChannelTypeVarCounter::new();
    let ok = channel_builtin(ChannelKind::Broadcast, &mut c).ok().unwrap();
    let e = var("T0");
    assert_eq!(
        show(&ok.ty),
        show(&Ty::Tuple(vec![Ty::Sender(Box::new(e)), Ty::ReceiverFactory(Box::new(var("T0")))]))
    );
}

#[test]
fn type_variable_fits_any_declared_return() {
    assert!(fits_return(&var("T"), &int_ty()));
    assert!(fits_return(&int_ty(), &int_ty()));
    assert!(!fits_return(&int_ty(), &text()));
}

#[test]
fn names_of_types() {
    assert_eq!(ty_name(&int_ty()), "Int");
    assert_eq!(ty_name(&Ty::Sum("Color".to_string())), "Color");
    assert_eq!(ty_name(&Ty::Unit), "");
}

#[test]
fn arm_types_unify_with_variables() {
    assert_eq!(show(&unify_arm_types(&var("T"), &int_ty()).unwrap()), show(&int_ty()));
    assert_eq!(show(&unify_arm_types(&int_ty(), &var("T")).unwrap()), show(&int_ty()));
    assert!(unify_arm_types(&int_ty(), &text()).is_none());
}

#[test]
fn element_type_of_collections() {
    let t = lib::tyops::extract_elem_ty(&Ty::List(Box::new(int_ty()))).unwrap();
    assert_eq!(show(&t), show(&int_ty()));
    assert!(lib::tyops::extract_elem_ty(&int_ty()).is_none());
}

#[test]
fn unified_parameter_gives_back_the_argument() {
    let param = Ty::Dict(Box::new(var("K")), Box::new(Ty::List(Box::new(var("V")))));
    let arg = Ty::Dict(Box::new(text()), Box::new(Ty::List(Box::new(int_ty()))));
    let mut subs = Substitutions::new();
    subs.insert("Z".to_string(), Ty::Unit);
    let r = unify(
        &[param.clone_for_test()],
        &[arg.clone_for_test()],
        &["K".to_string(), "V".to_string()],
        &mut subs,
        &RefinesRegistry::new(),
        &InterfaceRegistry::new(),
    );
    assert!(r.is_ok());
    assert_eq!(show(&apply_subs(&param, &subs)), show(&arg));
    assert_eq!(format!("{:?}", subs.get(&"Z".to_string())), "Some(Unit)");
}

trait CloneForTest {
    fn clone_for_test(&self) -> Self;
}

impl CloneForTest for Ty {
    fn clone_for_test(&self) -> Ty {
        lib::ty::ty_clone(self)
    }
}

#[test]
fn set_spelled_as_generic_unifies_but_is_not_rebuilt() {
    let mut subs = Substitutions::new();
    let p = Ty::SetOf(Box::new(var("T")));
    let a = Ty::Generic("Set".to_string(), vec![int_ty()]);
    let r = unify(&[p], &[a], &["T".to_string()], &mut subs, &RefinesRegistry::new(), &InterfaceRegistry::new());
    assert!(r.is_ok());
    let back = apply_subs(&Ty::SetOf(Box::new(var("T"))), &subs);
    assert!(matches!(back, Ty::SetOf(_)));
}

#[test]
fn unify_adds_only_type_parameters() {
    let mut subs = Substitutions::new();
    let r = unify(
        &[Ty::Tuple(vec![var("T"), var("U")])],
        &[Ty::Tuple(vec![int_ty(), text()])],
        &["T".to_string()],
        &mut subs,
        &RefinesRegistry::new(),
        &InterfaceRegistry::new(),
    );
    assert!(r.is_ok());
    assert!(subs.get(&"T".to_string()).is_some());
    assert!(subs.get(&"U".to_string()).is_none());
}

#[test]
fn substituting_twice_changes_nothing() {
    let mut subs = Substitutions::new();
    subs.insert("T".to_string(), Ty::List(Box::new(int_ty())));
    let t = Ty::Tuple(vec![var("T"), var("V")]);
    let once = apply_subs(&t, &subs);
    let twice = apply_subs(&once, &subs);
    assert_eq!(show(&once), show(&twice));
}
