//! The expansion engine: symbols are looked up, macro bodies substituted
//! and builtins applied until nothing is left to resolve.
//!
//! A node is evaluated children first, from left to right, and then by its
//! own kind over the children's results. Whatever a symbol expands to is
//! evaluated again, one level deeper. Children too are one level deeper
//! than their parent, and no level lies beyond `MAX_EXPANSION_DEPTH`.

use crate::ast::{
    address_of, bank_of, copy_names, location_address, location_bank, names_view, nodes_view,
    pack, pack_location, Kind, KindModel, Node, NodeModel,
};
use crate::error::ErrorKind;
use crate::symbol::{Builtin, Symbol, SymbolModel, SymbolTable};
use vstd::prelude::*;

verus! {

/// The deepest level at which a node is still evaluated.
pub const MAX_EXPANSION_DEPTH: usize = 1024;

/// What a node is worth where a byte is wanted: an integer is its value, a
/// location its address. Nothing else has a plain value.
pub open spec fn plain_value_model(node: NodeModel) -> Option<u8> {
    match node.kind {
        KindModel::Integer(value) => Some(value),
        KindModel::Location(location) => Some(address_of(location)),
        _ => None,
    }
}

/// What a node is worth where a byte is wanted.
pub fn plain_value(node: &Node) -> (value: Option<u8>)
    ensures
        value == plain_value_model(node@),
{
    proof {
        node.lemma_view_children();
    }
    match &node.kind {
        Kind::Integer(value) => Some(*value),
        Kind::Location(location) => Some(location_address(*location)),
        _ => None,
    }
}

/// The first place at which `name` stands among `params`.
pub open spec fn parameter_index(params: Seq<Seq<char>>, name: Seq<char>) -> Option<int>
    decreases params.len(),
{
    if params.len() == 0 {
        None
    } else {
        match parameter_index(params.drop_last(), name) {
            Some(i) => Some(i),
            None => if params.last() == name {
                Some(params.len() - 1)
            } else {
                None
            },
        }
    }
}

/// What `parameter_index` finds is the least index at which the name
/// stands, and it finds nothing only if the name stands nowhere.
pub proof fn lemma_parameter_index(params: Seq<Seq<char>>, name: Seq<char>)
    ensures
        match parameter_index(params, name) {
            Some(i) => 0 <= i < params.len() && params[i] == name && forall|j: int|
                0 <= j < i ==> params[j] != name,
            None => forall|j: int| 0 <= j < params.len() ==> params[j] != name,
        },
    decreases params.len(),
{
    if params.len() > 0 {
        let front = params.drop_last();
        lemma_parameter_index(front, name);
        assert(forall|j: int| 0 <= j < front.len() ==> front[j] == params[j]);
        match parameter_index(front, name) {
            Some(i) => {},
            None => {
                assert forall|j: int| 0 <= j < params.len() - 1 implies params[j] != name by {
                    assert(front[j] != name);
                }
            },
        }
    }
}

fn find_parameter(params: &Vec<String>, name: &String) -> (found: Option<usize>)
    ensures
        match found {
            Some(i) => parameter_index(names_view(params@), name@) == Some(i as int),
            None => parameter_index(names_view(params@), name@) is None,
        },
{
    let mut i: usize = 0;
    while i < params.len()
        invariant
            i <= params@.len(),
            forall|j: int| 0 <= j < i ==> params@[j]@ != name@,
        decreases params@.len() - i,
    {
        if params[i] == *name {
            proof {
                let names = names_view(params@);
                lemma_parameter_index(names, name@);
                assert(names[i as int] == name@);
                match parameter_index(names, name@) {
                    Some(k) => {
                        if k < i {
                            assert(names[k] == params@[k]@);
                        }
                    },
                    None => {},
                }
            }
            return Some(i);
        }
        i += 1;
    }
    proof {
        let names = names_view(params@);
        lemma_parameter_index(names, name@);
        match parameter_index(names, name@) {
            Some(k) => {
                assert(names[k] == params@[k]@);
            },
            None => {},
        }
    }
    None
}

/// The argument that takes the place of `node`, if `node` is an occurrence
/// of a parameter: a reference without arguments to a name among `params`.
pub open spec fn argument_for(
    params: Seq<Seq<char>>,
    args: Seq<NodeModel>,
    node: NodeModel,
) -> Option<NodeModel> {
    match node.kind {
        KindModel::Call(name) => match parameter_index(params, name) {
            Some(i) => if node.children.len() == 0 && i < args.len() {
                Some(args[i])
            } else {
                None
            },
            None => None,
        },
        _ => None,
    }
}

/// `node` with each occurrence of a parameter replaced by the argument of
/// the same place. The body of a macro definition inside `node` is left as
/// it is.
pub open spec fn substitute_model(
    params: Seq<Seq<char>>,
    args: Seq<NodeModel>,
    node: NodeModel,
) -> NodeModel
    decreases node,
{
    match argument_for(params, args, node) {
        Some(arg) => arg,
        None => NodeModel {
            kind: node.kind,
            children: Seq::new(
                node.children.len(),
                |i: int|
                    if 0 <= i < node.children.len() {
                        substitute_model(params, args, node.children[i])
                    } else {
                        NodeModel::leaf(KindModel::Void)
                    },
            ),
        },
    }
}

/// A copy of `body` in which each occurrence of a parameter is replaced by
/// a copy of the argument of the same place.
pub fn expand_ast(params: &Vec<String>, body: &Node, args: &Vec<Node>) -> (expanded: Node)
    ensures
        expanded@ == substitute_model(names_view(params@), nodes_view(args@), body@),
    decreases body,
{
    proof {
        body.lemma_view_children();
    }
    if let Kind::Call(name) = &body.kind {
        if body.children.len() == 0 {
            if let Some(i) = find_parameter(params, name) {
                if i < args.len() {
                    return args[i].deep_copy();
                }
            }
        }
    }
    let mut children: Vec<Node> = Vec::new();
    let mut i: usize = 0;
    while i < body.children.len()
        invariant
            i <= body.children@.len(),
            children@.len() == i,
            forall|j: int|
                0 <= j < i ==> children@[j]@ == substitute_model(
                    names_view(params@),
                    nodes_view(args@),
                    body.children@[j]@,
                ),
        decreases body.children@.len() - i,
    {
        let child = expand_ast(params, &body.children[i], args);
        children.push(child);
        i += 1;
    }
    let expanded = Node::new(body.kind.deep_copy(), children);
    assert(expanded@.children =~= substitute_model(
        names_view(params@),
        nodes_view(args@),
        body@,
    ).children);
    expanded
}

/// What a builtin yields on evaluated arguments, with the assembler at
/// `position` in `bank`. It takes exactly as many arguments as its arity
/// says.
pub open spec fn apply_model(
    op: Builtin,
    bank: u8,
    position: u8,
    args: Seq<NodeModel>,
) -> Result<NodeModel, ErrorKind> {
    if args.len() != op.arity_spec() {
        Err(ErrorKind::ArityMismatch)
    } else {
        match op {
            Builtin::Position => Ok(NodeModel::leaf(KindModel::Integer(position))),
            Builtin::CurrentBank => Ok(NodeModel::leaf(KindModel::Integer(bank))),
            Builtin::BankOf => match args[0].kind {
                KindModel::Location(location) => Ok(
                    NodeModel::leaf(KindModel::Integer(bank_of(location))),
                ),
                _ => Err(ErrorKind::TypeError),
            },
            Builtin::Add => match (plain_value_model(args[0]), plain_value_model(args[1])) {
                (Some(left), Some(right)) => Ok(
                    NodeModel::leaf(KindModel::Integer(((left + right) % 256) as u8)),
                ),
                _ => Err(ErrorKind::TypeError),
            },
        }
    }
}

/// What a symbol expands to on evaluated arguments: a location to itself,
/// a builtin to what it computes, a macro to its body with the arguments
/// in place of the parameters. Each takes exactly as many arguments as it
/// declares, a location none.
pub open spec fn expand_model(
    symbol: SymbolModel,
    bank: u8,
    position: u8,
    args: Seq<NodeModel>,
) -> Result<NodeModel, ErrorKind> {
    match symbol {
        SymbolModel::Location(location) => if args.len() == 0 {
            Ok(NodeModel::leaf(KindModel::Location(location)))
        } else {
            Err(ErrorKind::ArityMismatch)
        },
        SymbolModel::Builtin(op) => apply_model(op, bank, position, args),
        SymbolModel::Macro { params, body } => if args.len() == params.len() {
            Ok(substitute_model(params, args, body))
        } else {
            Err(ErrorKind::ArityMismatch)
        },
    }
}

/// The value of a result.
pub open spec fn result_view(result: Result<Node, ErrorKind>) -> Result<NodeModel, ErrorKind> {
    match result {
        Ok(node) => Ok(node@),
        Err(error) => Err(error),
    }
}

impl Builtin {
    /// Applies the operation to evaluated arguments.
    pub fn apply(self, bank: u8, position: u8, args: &Vec<Node>) -> (result: Result<
        Node,
        ErrorKind,
    >)
        ensures
            result_view(result) == apply_model(self, bank, position, nodes_view(args@)),
    {
        if args.len() != self.arity() {
            return Err(ErrorKind::ArityMismatch);
        }
        match self {
            Builtin::Position => Ok(Node::leaf(Kind::Integer(position))),
            Builtin::CurrentBank => Ok(Node::leaf(Kind::Integer(bank))),
            Builtin::BankOf => {
                proof {
                    args@[0].lemma_view_children();
                }
                match &args[0].kind {
                    Kind::Location(location) => Ok(
                        Node::leaf(Kind::Integer(location_bank(*location))),
                    ),
                    _ => Err(ErrorKind::TypeError),
                }
            },
            Builtin::Add => match (plain_value(&args[0]), plain_value(&args[1])) {
                (Some(left), Some(right)) => Ok(
                    Node::leaf(Kind::Integer(left.wrapping_add(right))),
                ),
                _ => Err(ErrorKind::TypeError),
            },
        }
    }
}

impl Symbol {
    /// What the symbol expands to on evaluated arguments.
    pub fn expand(&self, bank: u8, position: u8, args: &Vec<Node>) -> (result: Result<
        Node,
        ErrorKind,
    >)
        ensures
            result_view(result) == expand_model(self@, bank, position, nodes_view(args@)),
    {
        match self {
            Symbol::Location(location) => {
                if args.len() == 0 {
                    Ok(Node::leaf(Kind::Location(*location)))
                } else {
                    Err(ErrorKind::ArityMismatch)
                }
            },
            Symbol::Builtin(op) => op.apply(bank, position, args),
            Symbol::Macro { params, body } => {
                if args.len() == params.len() {
                    Ok(expand_ast(params, body, args))
                } else {
                    Err(ErrorKind::ArityMismatch)
                }
            },
        }
    }
}

/// The symbol table after an evaluation, and what the evaluation yielded.
/// The table after a failed evaluation holds what was defined before the
/// failure.
pub ghost struct Evaluated<T> {
    pub symbols: Map<Seq<char>, SymbolModel>,
    pub result: Result<T, ErrorKind>,
}

/// The levels that are left below `depth`.
pub open spec fn levels_left(depth: nat) -> nat {
    if depth > MAX_EXPANSION_DEPTH {
        0
    } else {
        (MAX_EXPANSION_DEPTH + 1 - depth) as nat
    }
}

/// The evaluation of `node` at level `depth`, with the assembler at
/// `position` in `bank`.
///
/// Beyond the deepest level nothing is evaluated. Otherwise the children
/// come first, in order and one level deeper, and then the node itself:
/// - an integer, a location, an identifier and a void node stay what they
///   are, over the evaluated children;
/// - a reference is looked up, expanded on the evaluated children, and the
///   expansion evaluated one level deeper;
/// - a sequence becomes a void node over its evaluated statements;
/// - a label binds its name to the current location and becomes void;
/// - a definition binds its name to the macro, the body as it stands, and
///   becomes void.
pub open spec fn eval_model(
    symbols: Map<Seq<char>, SymbolModel>,
    bank: u8,
    position: u8,
    node: NodeModel,
    depth: nat,
) -> Evaluated<NodeModel>
    decreases levels_left(depth), 0nat,
{
    if depth > MAX_EXPANSION_DEPTH {
        Evaluated { symbols, result: Err(ErrorKind::ExpansionDepthExceeded) }
    } else {
        let evaluated = eval_children_model(symbols, bank, position, node.children, depth + 1);
        match evaluated.result {
            Err(error) => Evaluated { symbols: evaluated.symbols, result: Err(error) },
            Ok(children) => match node.kind {
                KindModel::Call(name) => if evaluated.symbols.contains_key(name) {
                    match expand_model(evaluated.symbols[name], bank, position, children) {
                        Ok(expanded) => eval_model(
                            evaluated.symbols,
                            bank,
                            position,
                            expanded,
                            depth + 1,
                        ),
                        Err(error) => Evaluated {
                            symbols: evaluated.symbols,
                            result: Err(error),
                        },
                    }
                } else {
                    Evaluated {
                        symbols: evaluated.symbols,
                        result: Err(ErrorKind::UndefinedSymbol),
                    }
                },
                KindModel::Sequence => Evaluated {
                    symbols: evaluated.symbols,
                    result: Ok(NodeModel { kind: KindModel::Void, children }),
                },
                KindModel::Label(name) => Evaluated {
                    symbols: evaluated.symbols.insert(
                        name,
                        SymbolModel::Location(pack(bank, position)),
                    ),
                    result: Ok(NodeModel { kind: KindModel::Void, children }),
                },
                KindModel::Definition { name, params, body } => Evaluated {
                    symbols: evaluated.symbols.insert(
                        name,
                        SymbolModel::Macro { params, body: *body },
                    ),
                    result: Ok(NodeModel { kind: KindModel::Void, children }),
                },
                _ => Evaluated {
                    symbols: evaluated.symbols,
                    result: Ok(NodeModel { kind: node.kind, children }),
                },
            },
        }
    }
}

/// The evaluation of `nodes` from left to right, each at level `depth`
/// and under the symbols that the ones before it left. It ends at the
/// first failure.
pub open spec fn eval_children_model(
    symbols: Map<Seq<char>, SymbolModel>,
    bank: u8,
    position: u8,
    nodes: Seq<NodeModel>,
    depth: nat,
) -> Evaluated<Seq<NodeModel>>
    decreases levels_left(depth), nodes.len() + 1,
{
    if nodes.len() == 0 {
        Evaluated { symbols, result: Ok(Seq::empty()) }
    } else {
        let front = eval_children_model(symbols, bank, position, nodes.drop_last(), depth);
        match front.result {
            Err(error) => front,
            Ok(done) => {
                let last = eval_model(front.symbols, bank, position, nodes.last(), depth);
                match last.result {
                    Err(error) => Evaluated { symbols: last.symbols, result: Err(error) },
                    Ok(node) => Evaluated { symbols: last.symbols, result: Ok(done.push(node)) },
                }
            },
        }
    }
}

/// A failure among the first `k` nodes is the failure of the whole list.
pub proof fn lemma_children_failure(
    symbols: Map<Seq<char>, SymbolModel>,
    bank: u8,
    position: u8,
    nodes: Seq<NodeModel>,
    depth: nat,
    k: int,
)
    requires
        0 <= k <= nodes.len(),
        eval_children_model(symbols, bank, position, nodes.take(k), depth).result is Err,
    ensures
        eval_children_model(symbols, bank, position, nodes, depth) == eval_children_model(
            symbols,
            bank,
            position,
            nodes.take(k),
            depth,
        ),
    decreases nodes.len() - k,
{
    if k < nodes.len() {
        assert(nodes.take(k + 1).drop_last() =~= nodes.take(k));
        lemma_children_failure(symbols, bank, position, nodes, depth, k + 1);
    } else {
        assert(nodes.take(k) =~= nodes);
    }
}

/// Evaluates `node` at level `depth` against `symbols`, with the assembler
/// at `position` in `bank`, and returns the expanded tree. Labels and
/// definitions among the nodes enter `symbols` as they are met; a failure
/// leaves in it what was entered before.
pub fn evaluate(
    symbols: &mut SymbolTable,
    bank: u8,
    position: u8,
    node: &Node,
    depth: usize,
) -> (result: Result<Node, ErrorKind>)
    requires
        old(symbols).well_formed(),
    ensures
        final(symbols).well_formed(),
        final(symbols)@ == eval_model(old(symbols)@, bank, position, node@, depth as nat).symbols,
        result_view(result) == eval_model(
            old(symbols)@,
            bank,
            position,
            node@,
            depth as nat,
        ).result,
    decreases levels_left(depth as nat),
{
    if depth > MAX_EXPANSION_DEPTH {
        return Err(ErrorKind::ExpansionDepthExceeded);
    }
    let ghost start = symbols@;
    let ghost nodes = node@.children;
    proof {
        node.lemma_view_children();
    }
    // the children first, in order
    let mut children: Vec<Node> = Vec::new();
    let mut i: usize = 0;
    proof {
        assert(nodes.take(0) =~= Seq::<NodeModel>::empty());
        assert(nodes_view(children@) =~= Seq::<NodeModel>::empty());
    }
    while i < node.children.len()
        invariant
            symbols.well_formed(),
            depth <= MAX_EXPANSION_DEPTH,
            start == old(symbols)@,
            nodes == node@.children,
            nodes == nodes_view(node.children@),
            i <= node.children@.len(),
            children@.len() == i,
            eval_children_model(start, bank, position, nodes.take(i as int), (depth + 1) as nat)
                == (Evaluated { symbols: symbols@, result: Ok(nodes_view(children@)) }),
        decreases node.children@.len() - i,
    {
        let ghost before = symbols@;
        let ghost done = nodes_view(children@);
        proof {
            assert(nodes.take(i + 1).drop_last() =~= nodes.take(i as int));
            assert(nodes.take(i + 1).last() == node.children@[i as int]@);
        }
        match evaluate(symbols, bank, position, &node.children[i], depth + 1) {
            Ok(child) => {
                children.push(child);
                proof {
                    assert(nodes_view(children@) =~= done.push(child@));
                }
            },
            Err(error) => {
                proof {
                    lemma_children_failure(
                        start,
                        bank,
                        position,
                        nodes,
                        (depth + 1) as nat,
                        i + 1,
                    );
                }
                return Err(error);
            },
        }
        i += 1;
    }
    proof {
        assert(nodes.take(i as int) =~= nodes);
    }
    // then the node itself
    match &node.kind {
        Kind::Call(name) => {
            let expanded = match symbols.lookup(name) {
                Some(symbol) => symbol.expand(bank, position, &children),
                None => Err(ErrorKind::UndefinedSymbol),
            };
            match expanded {
                Ok(expanded) => evaluate(symbols, bank, position, &expanded, depth + 1),
                Err(error) => Err(error),
            }
        },
        Kind::Sequence => Ok(Node::new(Kind::Void, children)),
        Kind::Label(name) => {
            symbols.define(name.clone(), Symbol::Location(pack_location(bank, position)));
            Ok(Node::new(Kind::Void, children))
        },
        Kind::Definition { name, params, body } => {
            symbols.define(
                name.clone(),
                Symbol::Macro { params: copy_names(params), body: body.deep_copy() },
            );
            Ok(Node::new(Kind::Void, children))
        },
        kind => Ok(Node::new(kind.deep_copy(), children)),
    }
}

/// A macro without parameters whose body is a reference to itself never
/// settles: at whatever level its evaluation starts, it ends at the bound
/// with `ExpansionDepthExceeded`, and the symbols stay as they were.
pub proof fn lemma_self_reference_exceeds_depth(
    symbols: Map<Seq<char>, SymbolModel>,
    bank: u8,
    position: u8,
    name: Seq<char>,
    depth: nat,
)
    requires
        symbols.contains_key(name),
        symbols[name] == (SymbolModel::Macro {
            params: Seq::empty(),
            body: NodeModel::leaf(KindModel::Call(name)),
        }),
    ensures
        eval_model(symbols, bank, position, NodeModel::leaf(KindModel::Call(name)), depth) == (
        Evaluated::<NodeModel> { symbols, result: Err(ErrorKind::ExpansionDepthExceeded) }),
    decreases levels_left(depth),
{
    let call = NodeModel::leaf(KindModel::Call(name));
    if depth <= MAX_EXPANSION_DEPTH {
        let no_nodes = Seq::<NodeModel>::empty();
        assert(eval_children_model(symbols, bank, position, no_nodes, depth + 1) == (Evaluated {
            symbols,
            result: Ok(no_nodes),
        }));
        assert(parameter_index(Seq::<Seq<char>>::empty(), name) is None);
        assert(substitute_model(Seq::empty(), no_nodes, call).children =~= no_nodes);
        assert(expand_model(symbols[name], bank, position, no_nodes) == Ok::<
            NodeModel,
            ErrorKind,
        >(call));
        lemma_self_reference_exceeds_depth(symbols, bank, position, name, depth + 1);
    }
}

/// A label without children binds its name to the place where the
/// assembler stands, and leaves no value.
pub proof fn lemma_label_binds(
    symbols: Map<Seq<char>, SymbolModel>,
    bank: u8,
    position: u8,
    name: Seq<char>,
    depth: nat,
)
    requires
        depth <= MAX_EXPANSION_DEPTH,
    ensures
        eval_model(symbols, bank, position, NodeModel::leaf(KindModel::Label(name)), depth) == (
        Evaluated {
            symbols: symbols.insert(name, SymbolModel::Location(pack(bank, position))),
            result: Ok(NodeModel::leaf(KindModel::Void)),
        }),
{
    let no_nodes = Seq::<NodeModel>::empty();
    assert(eval_children_model(symbols, bank, position, no_nodes, depth + 1) == (Evaluated {
        symbols,
        result: Ok(no_nodes),
    }));
}

/// A reference to a name that is bound to a location evaluates to that
/// location, wherever the assembler stands by then: as a plain value it
/// is the address at which the label was declared.
pub proof fn lemma_location_resolves(
    symbols: Map<Seq<char>, SymbolModel>,
    bank: u8,
    position: u8,
    name: Seq<char>,
    location: u16,
    depth: nat,
)
    requires
        depth < MAX_EXPANSION_DEPTH,
        symbols.contains_key(name),
        symbols[name] == SymbolModel::Location(location),
    ensures
        eval_model(symbols, bank, position, NodeModel::leaf(KindModel::Call(name)), depth) == (
        Evaluated { symbols, result: Ok(NodeModel::leaf(KindModel::Location(location))) }),
        plain_value_model(NodeModel::leaf(KindModel::Location(location))) == Some(
            address_of(location),
        ),
{
    let no_nodes = Seq::<NodeModel>::empty();
    assert(eval_children_model(symbols, bank, position, no_nodes, depth + 1) == (Evaluated {
        symbols,
        result: Ok(no_nodes),
    }));
    assert(eval_children_model(symbols, bank, position, no_nodes, depth + 2) == (Evaluated {
        symbols,
        result: Ok(no_nodes),
    }));
    let found = NodeModel::leaf(KindModel::Location(location));
    assert(expand_model(symbols[name], bank, position, no_nodes) == Ok::<NodeModel, ErrorKind>(
        found,
    ));
    assert(eval_model(symbols, bank, position, found, depth + 1) == (Evaluated {
        symbols,
        result: Ok(found),
    }));
}

/// `bank` applied to a reference to a name that is bound to a location
/// evaluates to the bank of that location.
pub proof fn lemma_bank_of_label(
    symbols: Map<Seq<char>, SymbolModel>,
    bank: u8,
    position: u8,
    name: Seq<char>,
    location: u16,
    depth: nat,
)
    requires
        depth + 2 <= MAX_EXPANSION_DEPTH,
        symbols.contains_key(name),
        symbols[name] == SymbolModel::Location(location),
        symbols.contains_key("bank"@),
        symbols["bank"@] == SymbolModel::Builtin(Builtin::BankOf),
    ensures
        eval_model(
            symbols,
            bank,
            position,
            NodeModel {
                kind: KindModel::Call("bank"@),
                children: seq![NodeModel::leaf(KindModel::Call(name))],
            },
            depth,
        ) == (Evaluated {
            symbols,
            result: Ok(NodeModel::leaf(KindModel::Integer(bank_of(location)))),
        }),
{
    let no_nodes = Seq::<NodeModel>::empty();
    let reference = NodeModel::leaf(KindModel::Call(name));
    let found = NodeModel::leaf(KindModel::Location(location));
    let args = seq![reference];
    lemma_location_resolves(symbols, bank, position, name, location, depth + 1);
    assert(args.drop_last() =~= no_nodes);
    assert(args.last() == reference);
    assert(eval_children_model(symbols, bank, position, no_nodes, depth + 1) == (Evaluated {
        symbols,
        result: Ok(no_nodes),
    }));
    assert(no_nodes.push(found) =~= seq![found]);
    assert(eval_children_model(symbols, bank, position, args, depth + 1) == (Evaluated {
        symbols,
        result: Ok(seq![found]),
    }));
    let value = NodeModel::leaf(KindModel::Integer(bank_of(location)));
    assert(expand_model(symbols["bank"@], bank, position, seq![found]) == Ok::<
        NodeModel,
        ErrorKind,
    >(value));
    assert(eval_children_model(symbols, bank, position, no_nodes, depth + 2) == (Evaluated {
        symbols,
        result: Ok(no_nodes),
    }));
    assert(eval_model(symbols, bank, position, value, depth + 1) == (Evaluated {
        symbols,
        result: Ok(value),
    }));
}

} // verus!
