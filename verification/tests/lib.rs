#[test]
fn lib_it_works() {
    assert_eq!(2 + 2, 4);
}
