use rearch::naming::{
    capsule_args, capsule_type_name, dependency_count, factory_arity, snake_to_pascal, CapsuleArg,
    FnParam,
};

#[test]
fn snake_case_becomes_pascal_case() {
    assert_eq!(snake_to_pascal("foo_bar"), "FooBar");
    assert_eq!(snake_to_pascal("count"), "Count");
    assert_eq!(snake_to_pascal("__a__b_"), "AB");
    assert_eq!(snake_to_pascal(""), "");
}

#[test]
fn upper_casing_may_grow_a_word() {
    assert_eq!(snake_to_pascal("ß_straße"), "SSStraße");
}

#[test]
fn capsule_type_names_get_their_suffix() {
    assert_eq!(capsule_type_name("count_plus_one", "Capsule"), "CountPlusOneCapsule");
    assert_eq!(capsule_type_name("big_string", "Factory"), "BigStringFactory");
}

#[test]
fn capsule_parameters_get_their_arguments() {
    let params = vec![FnParam::Path, FnParam::Reference, FnParam::ImplTrait, FnParam::Path];
    assert_eq!(
        capsule_args(&params),
        vec![CapsuleArg::Dependency, CapsuleArg::Reader, CapsuleArg::Handle, CapsuleArg::Dependency]
    );
}

#[test]
fn factories_take_at_most_one_tuple_of_arguments() {
    assert_eq!(factory_arity(&vec![FnParam::Path, FnParam::Path]), None);
    assert_eq!(factory_arity(&vec![FnParam::Path, FnParam::Tuple(2), FnParam::Path]), Some(2));
    assert_eq!(dependency_count(&vec![FnParam::Path, FnParam::Tuple(2), FnParam::Path]), 2);
}
