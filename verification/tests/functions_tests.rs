use slimes::functions::Functions;

#[test]
fn make_from_name_finds_each_function() {
    assert_eq!(Functions::make_from_name("ackley"), Functions::Ackley);
    assert_eq!(Functions::make_from_name("schwefel"), Functions::Schwefel);
    assert_eq!(Functions::make_from_name("brown"), Functions::Brown);
    assert_eq!(Functions::make_from_name("rastrigin"), Functions::Rastrigin);
    assert_eq!(Functions::make_from_name("schwefel2"), Functions::Schwefel2);
    assert_eq!(Functions::make_from_name("solomon"), Functions::Solomon);
}

#[test]
fn try_from_name_rejects_unknown_names() {
    assert_eq!(Functions::try_from_name("rosenbrock"), None);
    assert_eq!(Functions::try_from_name(""), None);
    assert_eq!(Functions::try_from_name("Ackley"), None);
    assert_eq!(Functions::try_from_name("schwefel3"), None);
    assert_eq!(Functions::try_from_name("solomon "), None);
}

#[test]
fn try_from_name_agrees_with_make_from_name() {
    for name in ["ackley", "schwefel", "brown", "rastrigin", "schwefel2", "solomon"] {
        assert_eq!(Functions::try_from_name(name), Some(Functions::make_from_name(name)));
    }
}
