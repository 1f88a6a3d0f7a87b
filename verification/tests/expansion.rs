use nibble8::ast::{
    copy_names, location_address, location_bank, pack_location, Kind, Node,
};
use nibble8::error::ErrorKind;
use nibble8::expand::{evaluate, expand_ast, plain_value};
use nibble8::symbol::{Builtin, Symbol, SymbolTable};

fn num(value: u8) -> Node {
    Node::leaf(Kind::Integer(value))
}

fn reference(name: &str) -> Node {
    Node::leaf(Kind::Call(name.to_string()))
}

fn call(name: &str, args: Vec<Node>) -> Node {
    Node::new(Kind::Call(name.to_string()), args)
}

fn names(list: &[&str]) -> Vec<String> {
    list.iter().map(|name| name.to_string()).collect()
}

#[test]
fn locations_pack_bank_high() {
    assert_eq!(pack_location(0, 0), 0);
    assert_eq!(pack_location(2, 10), 0x020a);
    assert_eq!(pack_location(0xff, 0xff), 0xffff);
    assert_eq!(location_bank(0x020a), 2);
    assert_eq!(location_address(0x020a), 10);
    for bank in [0u8, 1, 0x7f, 0xff] {
        for addr in [0u8, 1, 0x80, 0xff] {
            let location = pack_location(bank, addr);
            assert_eq!((location_bank(location), location_address(location)), (bank, addr));
        }
    }
}

#[test]
fn plain_values() {
    assert_eq!(plain_value(&num(0x42)), Some(0x42));
    assert_eq!(plain_value(&Node::leaf(Kind::Location(0x1234))), Some(0x34));
    assert_eq!(plain_value(&Node::leaf(Kind::Void)), None);
    assert_eq!(plain_value(&Node::leaf(Kind::Identifier("A".to_string()))), None);
    assert_eq!(plain_value(&reference("x")), None);
}

#[test]
fn node_builders() {
    let leaf = Node::leaf(Kind::Integer(1));
    assert_eq!(leaf, Node { kind: Kind::Integer(1), children: vec![] });
    let node = Node::new(Kind::Sequence, vec![num(1), num(2)]);
    assert_eq!(node, Node { kind: Kind::Sequence, children: vec![num(1), num(2)] });
    assert_eq!(copy_names(&names(&["a", "bc", ""])), names(&["a", "bc", ""]));
    let definition = Kind::Definition {
        name: "m".to_string(),
        params: names(&["p"]),
        body: Box::new(call("+", vec![reference("p"), num(1)])),
    };
    assert_eq!(definition.deep_copy(), definition);
}

#[test]
fn symbol_table_binds_and_replaces() {
    let mut table = SymbolTable::new();
    assert_eq!(table.lookup(&"a".to_string()), None);
    table.define("a".to_string(), Symbol::Location(1));
    table.define("b".to_string(), Symbol::Location(2));
    assert_eq!(table.lookup(&"a".to_string()), Some(&Symbol::Location(1)));
    assert_eq!(table.lookup(&"b".to_string()), Some(&Symbol::Location(2)));
    table.define("a".to_string(), Symbol::Builtin(Builtin::Add));
    assert_eq!(table.lookup(&"a".to_string()), Some(&Symbol::Builtin(Builtin::Add)));
    assert_eq!(table.lookup(&"b".to_string()), Some(&Symbol::Location(2)));
    assert_eq!(table.lookup(&"".to_string()), None);
    assert_eq!(table.lookup(&"A".to_string()), None);
}

#[test]
fn substitution_replaces_parameters() {
    let params = names(&["x", "y"]);
    let args = vec![num(1), num(2)];
    let body = call("+", vec![reference("y"), call("+", vec![reference("x"), reference("z")])]);
    let expected = call("+", vec![num(2), call("+", vec![num(1), reference("z")])]);
    assert_eq!(expand_ast(&params, &body, &args), expected);
    // the body alone a parameter
    assert_eq!(expand_ast(&params, &reference("x"), &args), num(1));
    // no parameters
    assert_eq!(expand_ast(&vec![], &body, &vec![]), body);
}

#[test]
fn substitution_takes_whole_argument_trees() {
    let params = names(&["x"]);
    let arg = call("+", vec![num(1), Node::leaf(Kind::Location(0x0102))]);
    let body = Node::new(Kind::Sequence, vec![reference("x"), reference("x")]);
    let expanded = expand_ast(&params, &body, &vec![arg.deep_copy()]);
    assert_eq!(expanded, Node::new(Kind::Sequence, vec![arg.deep_copy(), arg]));
}

#[test]
fn substitution_leaves_other_nodes() {
    let params = names(&["x"]);
    let args = vec![num(9)];
    // an identifier is no reference
    let word = Node::leaf(Kind::Identifier("x".to_string()));
    assert_eq!(expand_ast(&params, &word, &args), word);
    // a reference with arguments is no parameter occurrence, but its arguments are searched
    let applied = call("x", vec![reference("x")]);
    assert_eq!(expand_ast(&params, &applied, &args), call("x", vec![num(9)]));
    // a label of that name stays
    let label = Node::leaf(Kind::Label("x".to_string()));
    assert_eq!(expand_ast(&params, &label, &args), label);
    // the body of a definition inside stays as it is
    let definition = Node::new(
        Kind::Definition {
            name: "inner".to_string(),
            params: vec![],
            body: Box::new(reference("x")),
        },
        vec![reference("x")],
    );
    let expected = Node::new(
        Kind::Definition {
            name: "inner".to_string(),
            params: vec![],
            body: Box::new(reference("x")),
        },
        vec![num(9)],
    );
    assert_eq!(expand_ast(&params, &definition, &args), expected);
}

#[test]
fn substitution_takes_first_of_equal_parameters() {
    let params = names(&["x", "x"]);
    let args = vec![num(1), num(2)];
    assert_eq!(expand_ast(&params, &reference("x"), &args), num(1));
}

#[test]
fn symbols_expand() {
    let args = vec![num(3), num(4)];
    assert_eq!(Symbol::Location(0x0a0b).expand(1, 2, &vec![]), Ok(Node::leaf(Kind::Location(0x0a0b))));
    assert_eq!(Symbol::Location(0x0a0b).expand(1, 2, &args), Err(ErrorKind::ArityMismatch));
    assert_eq!(Symbol::Builtin(Builtin::Add).expand(1, 2, &args), Ok(num(7)));
    assert_eq!(Symbol::Builtin(Builtin::Position).expand(1, 2, &vec![]), Ok(num(2)));
    assert_eq!(Symbol::Builtin(Builtin::CurrentBank).expand(1, 2, &vec![]), Ok(num(1)));
    let swap = Symbol::Macro {
        params: names(&["a", "b"]),
        body: Node::new(Kind::Sequence, vec![reference("b"), reference("a")]),
    };
    assert_eq!(swap.expand(0, 0, &args), Ok(Node::new(Kind::Sequence, vec![num(4), num(3)])));
    assert_eq!(swap.expand(0, 0, &vec![num(1)]), Err(ErrorKind::ArityMismatch));
}

#[test]
fn builtins_apply() {
    let place = Node::leaf(Kind::Location(0x0c0d));
    assert_eq!(Builtin::BankOf.apply(0, 0, &vec![place]), Ok(num(0x0c)));
    assert_eq!(Builtin::BankOf.apply(0, 0, &vec![num(1)]), Err(ErrorKind::TypeError));
    assert_eq!(Builtin::BankOf.apply(0, 0, &vec![]), Err(ErrorKind::ArityMismatch));
    assert_eq!(Builtin::Add.apply(0, 0, &vec![num(200), num(100)]), Ok(num(44)));
    assert_eq!(Builtin::Add.apply(0, 0, &vec![num(200)]), Err(ErrorKind::ArityMismatch));
    assert_eq!(Builtin::Position.apply(3, 4, &vec![num(1)]), Err(ErrorKind::ArityMismatch));
    assert_eq!(Builtin::Position.apply(3, 4, &vec![]), Ok(num(4)));
    assert_eq!(Builtin::CurrentBank.apply(3, 4, &vec![]), Ok(num(3)));
}

#[test]
fn evaluate_works_on_a_bare_table() {
    let mut table = SymbolTable::new();
    // no builtins here
    assert_eq!(evaluate(&mut table, 0, 0, &reference("@"), 0), Err(ErrorKind::UndefinedSymbol));
    table.define("+".to_string(), Symbol::Builtin(Builtin::Add));
    let label = Node::leaf(Kind::Label("spot".to_string()));
    assert_eq!(evaluate(&mut table, 6, 7, &label, 0), Ok(Node::leaf(Kind::Void)));
    assert_eq!(table.lookup(&"spot".to_string()), Some(&Symbol::Location(0x0607)));
    let sum = call("+", vec![reference("spot"), num(1)]);
    assert_eq!(evaluate(&mut table, 0, 0, &sum, 0), Ok(num(8)));
    // the levels: the sum at 1022, its arguments at 1023, the location at 1024
    assert_eq!(evaluate(&mut table, 0, 0, &sum, 1022), Ok(num(8)));
    assert_eq!(evaluate(&mut table, 0, 0, &sum, 1023), Err(ErrorKind::ExpansionDepthExceeded));
}
