use vulkys::type_traits::MetaMethods;

#[test]
fn check_struct_name() {
    #[derive(Debug)]
    struct NewStructOne();
    impl MetaMethods for NewStructOne {}

    let s = NewStructOne();
    assert_eq!(String::from("NewStructOne"), s.to_string())
}

use vulkys::type_traits::struct_name;

#[test]
fn struct_name_cuts_before_fields() {
    assert_eq!(struct_name("Ball { mass: 1.0 }"), "Ball");
    assert_eq!(struct_name("Ball {\n    mass: 1.0,\n}"), "Ball");
    assert_eq!(struct_name("Two Words (1)"), "Two Words");
    assert_eq!(struct_name("Pair(1, 2)"), "Pair");
    assert_eq!(struct_name("Unit"), "Unit");
    assert_eq!(struct_name(""), "");
    assert_eq!(struct_name("{x}"), "");
}

#[test]
fn meta_methods_on_named_struct() {
    #[derive(Debug)]
    struct Body {
        _mass: u32,
    }
    impl MetaMethods for Body {}
    assert_eq!(MetaMethods::to_string(&Body { _mass: 3 }), "Body");
}
